//! Audio stream plumbing: sample rate conversion, automatic gain control and decoding.
//!
//! The decisions these take (which samples are emitted, how buffers are filled and drained, where
//! a seek lands) are here. Samples themselves are moved around, never computed with, so every
//! type that holds samples is generic in the sample type.
pub mod common;
pub mod conversions;
pub mod decoder;
mod external;
pub mod math;
pub mod source;
pub mod time;
