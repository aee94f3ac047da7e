//! Decoding of audio streams.
use vstd::prelude::*;

pub mod symphonia;

verus! {

/// How a stream is to be decoded.
#[derive(Debug, Clone, Copy, PartialEq, Eq, Structural)]
pub struct Settings {
    /// Whether encoder delay and padding are trimmed for gapless playback.
    pub gapless: bool,
    /// Whether seeking may stop at the closest point that is cheap to reach.
    pub coarse_seek: bool,
}

/// Why a stream cannot be decoded.
#[derive(Debug)]
pub enum DecoderError {
    /// The format of the data has not been recognized.
    UnrecognizedFormat,
    /// An IO error occurred while reading, writing, or seeking the stream.
    IoError(String),
    /// The stream contained malformed data and could not be decoded or demuxed.
    DecodeError(&'static str),
    /// A default or user-defined limit was reached while decoding or demuxing the stream.
    LimitError(&'static str),
    /// The demuxer or decoder needs to be reset before continuing.
    ResetRequired,
    /// No streams were found by the decoder.
    NoStreams,
}

} // verus!
