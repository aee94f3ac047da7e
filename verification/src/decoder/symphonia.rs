//! Decoding with `symphonia`.
//!
//! Demuxing and decoding read from the stream, so they happen outside. What is here decides: which
//! packets are decoded, which failures end a stream and which are passed over, what is emitted for
//! the samples that were decoded, and where a seek ends up.
use crate::common::{ChannelCount, SampleRate};
use crate::decoder::{DecoderError, Settings};
use crate::external::calc_time;
use crate::math::{magnitude, towards_zero};
use crate::source::{padding_needed, padding_samples_needed};
use crate::time::{law_tick_nanos, tick_nanos, Duration, NANOS_PER_SEC};
use std::sync::Arc;
use vstd::arithmetic::div_mod::*;
use vstd::arithmetic::mul::*;
use vstd::math::*;
use vstd::prelude::*;
use vstd::rwlock::{ReadHandle, RwLock, RwLockPredicate, WriteHandle};

verus! {

/// A registry of codecs, and whether it is still the one that was first shared.
pub struct SharedCodecs {
    codecs: ::symphonia::core::codecs::registry::CodecRegistry,
    changed: Ghost<bool>,
}

impl SharedCodecs {
    /// The registry.
    pub closed spec fn codecs(&self) -> ::symphonia::core::codecs::registry::CodecRegistry {
        self.codecs
    }

    /// Whether somebody has had access to it for writing since it was first shared.
    pub closed spec fn is_changed(&self) -> bool {
        self.changed@
    }

    /// The registry, for reading.
    pub fn get(&self) -> (r: &::symphonia::core::codecs::registry::CodecRegistry)
        ensures
            *r == self.codecs(),
    {
        &self.codecs
    }

    /// The registry, for writing.
    pub fn get_mut(&mut self) -> (r: &mut ::symphonia::core::codecs::registry::CodecRegistry)
        ensures
            *r == old(self).codecs(),
            final(self).codecs() == *final(r),
            final(self).is_changed(),
    {
        self.changed = Ghost(true);
        &mut self.codecs
    }
}

/// What is shared is `first`, unless somebody has changed it.
pub struct StartsWith {
    pub first: ::symphonia::core::codecs::registry::CodecRegistry,
}

impl RwLockPredicate<SharedCodecs> for StartsWith {
    open spec fn inv(self, v: SharedCodecs) -> bool {
        !v.is_changed() ==> v.codecs() == self.first
    }
}

/// A registry of codecs that is shared among decoders.
pub struct Registry(Arc<RwLock<SharedCodecs, StartsWith>>);

impl Registry {
    /// The lock that guards the registry.
    pub closed spec fn lock(&self) -> RwLock<SharedCodecs, StartsWith> {
        *self.0
    }

    /// The registry that was first shared.
    pub open spec fn first(&self) -> ::symphonia::core::codecs::registry::CodecRegistry {
        self.lock().pred().first
    }

    /// Shares `registry`. It is what everybody gets, until somebody changes it.
    pub fn new(registry: ::symphonia::core::codecs::registry::CodecRegistry) -> (r: Registry)
        ensures
            r.first() == registry,
    {
        let ghost first = registry;
        let shared: SharedCodecs = SharedCodecs { codecs: registry, changed: Ghost(false) };
        Registry(Arc::new(RwLock::new(shared, Ghost(StartsWith { first }))))
    }

    /// Takes the registry out, to be changed. Nobody else gets at it until it is handed back with
    /// `release_write`.
    pub fn write(&self) -> (r: (SharedCodecs, WriteHandle<'_, SharedCodecs, StartsWith>))
        ensures
            r.1.rwlock() == self.lock(),
            !r.0.is_changed() ==> r.0.codecs() == self.first(),
    {
        self.0.acquire_write()
    }

    /// Access to the registry, for reading. Nobody changes it until `release_read` is called.
    pub fn read(&self) -> (r: ReadHandle<'_, SharedCodecs, StartsWith>)
        ensures
            r.rwlock() == self.lock(),
            !r.view().is_changed() ==> r.view().codecs() == self.first(),
    {
        self.0.acquire_read()
    }
}

impl Clone for Registry {
    /// The same registry: it is not copied.
    fn clone(&self) -> (r: Registry)
        ensures
            r.lock() == self.lock(),
    {
        Registry(self.0.clone())
    }
}

/// How exact a seek is.
#[derive(Debug, Clone, Copy, PartialEq, Eq, Structural)]
pub enum SeekMode {
    /// To the closest point that is cheap to reach.
    Coarse,
    /// To the very point.
    Accurate,
}

/// The duration of a tick, in seconds: `numer / denom`.
#[derive(Debug, Clone, Copy, PartialEq, Eq, Structural)]
pub struct TimeBase {
    numer: u32,
    denom: u32,
}

impl TimeBase {
    #[verifier::type_invariant]
    spec fn is_positive(self) -> bool {
        self.numer > 0 && self.denom > 0
    }

    /// The numerator.
    pub closed spec fn numer(&self) -> int {
        self.numer as int
    }

    /// The denominator.
    pub closed spec fn denom(&self) -> int {
        self.denom as int
    }

    /// `numer / denom`, where it is a positive number.
    pub fn new(numer: u32, denom: u32) -> (r: Option<TimeBase>)
        ensures
            r is Some <==> numer > 0 && denom > 0,
            r matches Some(base) ==> base.numer() == numer && base.denom() == denom,
    {
        if numer > 0 && denom > 0 {
            Some(TimeBase { numer, denom })
        } else {
            None
        }
    }

    /// The time of the tick `ts`, where it can be represented.
    pub fn calc_time(&self, ts: i64) -> (r: Option<Time>)
        ensures
            self.numer() > 0,
            self.denom() > 0,
            r is Some <==> i64::MIN <= tick_nanos(self.numer(), self.denom(), ts as int)
                / NANOS_PER_SEC as int <= i64::MAX,
            r matches Some(time) ==> time.secs == towards_zero(
                tick_nanos(self.numer(), self.denom(), ts as int),
                NANOS_PER_SEC as int,
            ),
            r matches Some(time) ==> time.nanos == magnitude(
                tick_nanos(self.numer(), self.denom(), ts as int),
            ) % NANOS_PER_SEC as int,
    {
        proof {
            use_type_invariant(self);
        }
        match calc_time(self.numer, self.denom, ts) {
            Some((secs, nanos)) => Some(Time { secs, nanos }),
            None => None,
        }
    }
}

/// A point in time: whole seconds, and the nanoseconds beyond them.
#[derive(Debug, Clone, Copy, PartialEq, Eq, Structural)]
pub struct Time {
    pub secs: i64,
    pub nanos: u32,
}

/// The time since the start of the stream. It is zero for negative whole seconds.
pub fn time_to_std_duration(time: Time) -> (r: Duration)
    ensures
        r@ == if time.secs >= 0 {
            time.secs * NANOS_PER_SEC + time.nanos
        } else {
            0
        },
{
    if time.secs >= 0 {
        Duration::new(time.secs as u64, time.nanos)
    } else {
        Duration::zero()
    }
}

/// The length, in nanoseconds, of what lies between the start of the stream and the point `nanos`
/// nanoseconds after it, as it is reported: none for a point that lies a second or more before the
/// start.
pub open spec fn reported_nanos(nanos: int) -> int {
    if nanos > -NANOS_PER_SEC {
        magnitude(nanos)
    } else {
        0
    }
}

/// The length that is reported for the tick `ts`, where there is one.
pub open spec fn tick_duration(base: TimeBase, ts: int) -> Option<int> {
    let nanos = tick_nanos(base.numer(), base.denom(), ts);
    if i64::MIN <= nanos / NANOS_PER_SEC as int <= i64::MAX {
        Some(reported_nanos(nanos))
    } else {
        None
    }
}

/// The time from the start of the stream to the tick `ts`, where it can be represented.
pub fn calc_duration(base: TimeBase, ts: i64) -> (r: Option<Duration>)
    ensures
        r is Some <==> tick_duration(base, ts as int) is Some,
        r matches Some(duration) ==> tick_duration(base, ts as int) == Some(duration@),
{
    match base.calc_time(ts) {
        Some(time) => {
            proof {
                let nanos = tick_nanos(base.numer(), base.denom(), ts as int);
                lemma_fundamental_div_mod(magnitude(nanos), NANOS_PER_SEC as int);
                if nanos < 0 && nanos > -NANOS_PER_SEC {
                    lemma_basic_div(-nanos, NANOS_PER_SEC as int);
                }
            }
            Some(time_to_std_duration(time))
        },
        None => None,
    }
}

/// What a demuxer tells of a track.
#[derive(Debug, Clone, Copy, PartialEq, Eq, Structural)]
pub struct Track {
    pub id: u32,
    pub time_base: Option<TimeBase>,
    /// The number of frames that the encoder put before the sound.
    pub delay: Option<u32>,
    /// The number of frames that the encoder put after the sound.
    pub padding: Option<u32>,
    /// The playable length, in ticks.
    pub duration: Option<u64>,
    /// The number of frames.
    pub num_frames: Option<u64>,
}

impl Track {
    /// The ticks that are played in addition to the sound.
    pub open spec fn trim_ticks(&self, gapless: bool) -> int {
        if gapless {
            0
        } else {
            (match self.delay {
                Some(delay) => delay as int,
                None => 0,
            }) + (match self.padding {
                Some(padding) => padding as int,
                None => 0,
            })
        }
    }

    /// The length of the sound, in ticks.
    pub open spec fn playable_ticks(&self) -> Option<u64> {
        if self.duration is Some {
            self.duration
        } else {
            self.num_frames
        }
    }

    /// The length of all that is played, in ticks.
    ///
    /// `duration` is the playable length in timebase units. When gapless playback is disabled the
    /// decoder will additionally emit encoder delay/padding frames, so those are part of the total:
    /// it reflects the actual sample count consumers will see.
    pub fn total_ticks(&self, gapless: bool) -> (r: Option<u64>)
        ensures
            r is Some <==> self.playable_ticks() is Some,
            r matches Some(ticks) ==> ticks == min(
                self.playable_ticks()->0 + self.trim_ticks(gapless),
                u64::MAX as int,
            ),
    {
        let trim_ticks: u64 = if gapless {
            0
        } else {
            let delay: u32 = match self.delay {
                Some(delay) => delay,
                None => 0,
            };
            let padding: u32 = match self.padding {
                Some(padding) => padding,
                None => 0,
            };
            delay as u64 + padding as u64
        };
        let playable: Option<u64> = match self.duration {
            Some(duration) => Some(duration),
            None => self.num_frames,
        };
        match playable {
            Some(ticks) => Some(ticks.saturating_add(trim_ticks)),
            None => None,
        }
    }

    /// The time that all that is played takes. There is none where it is unknown or nothing.
    pub fn total_duration(&self, gapless: bool) -> (r: Option<Duration>)
        ensures
            r is Some <==> {
                &&& self.time_base is Some
                &&& self.playable_ticks() is Some
                &&& self.length(gapless) is Some
                &&& self.length(gapless)->0 != 0
            },
            r matches Some(duration) ==> self.length(gapless) == Some(duration@),
    {
        match (self.time_base, self.total_ticks(gapless)) {
            (Some(base), Some(ticks)) => {
                assert(as_timestamp(ticks as int) == #[verifier::truncate] (ticks as i64)) by {
                    if ticks > i64::MAX {
                        assert(#[verifier::truncate] (ticks as i64) == ticks - 0x1_0000_0000_0000_0000)
                            by (bit_vector)
                            requires
                                ticks > 0x7fff_ffff_ffff_ffffu64,
                        ;
                    }
                }
                match calc_duration(base, #[verifier::truncate] (ticks as i64)) {
                    Some(duration) => if duration.is_zero() {
                        None
                    } else {
                        Some(duration)
                    },
                    None => None,
                }
            },
            _ => None,
        }
    }

    /// The time that all that is played takes, in nanoseconds, as far as it is known.
    pub open spec fn length(&self, gapless: bool) -> Option<int> {
        tick_duration(
            self.time_base->0,
            as_timestamp(
                min(self.playable_ticks()->0 + self.trim_ticks(gapless), u64::MAX as int),
            ),
        )
    }
}

/// A number of ticks as a timestamp: one that is too large for a timestamp wraps around.
pub open spec fn as_timestamp(ticks: int) -> int {
    if ticks <= i64::MAX {
        ticks
    } else {
        ticks - 0x1_0000_0000_0000_0000
    }
}

/// What goes wrong with a stream, as far as it matters here.
#[derive(Debug)]
pub enum StreamError {
    /// Reading the stream failed, with this message.
    IoError(String),
    /// The stream is malformed.
    DecodeError(&'static str),
    /// Seeking failed.
    SeekError,
    /// The stream uses something that is not supported.
    Unsupported,
    /// A limit was reached.
    LimitError(&'static str),
    /// The demuxer or decoder needs to be reset.
    ResetRequired,
    /// Something else.
    Other,
}

/// The layout of decoded audio.
#[derive(Debug, Clone, Copy, PartialEq, Eq, Structural)]
pub struct AudioSpec {
    /// The number of channels.
    pub channels: usize,
    /// The sample rate.
    pub rate: u32,
}

impl AudioSpec {
    /// The number of channels is one that a source can have.
    pub open spec fn is_playable(&self) -> bool {
        1 <= self.channels <= u16::MAX
    }

    /// Whether the number of channels is one that a source can have.
    pub fn can_be_played(&self) -> (r: bool)
        ensures
            r == self.is_playable(),
    {
        self.channels >= 1 && self.channels <= u16::MAX as usize
    }
}

/// The audio of a packet, the samples of a frame following each other.
#[derive(Debug)]
pub struct Decoded<S> {
    /// The number of frames.
    pub frames: usize,
    pub samples: Vec<S>,
    pub spec: AudioSpec,
}

impl<S> Decoded<S> {
    /// The samples are those of the frames: one for each channel of each.
    pub open spec fn wf(&self) -> bool {
        self.samples@.len() == self.frames * self.spec.channels
    }

    /// The samples make up whole frames, and there are some where there are frames.
    pub proof fn lemma_frames_are_whole(&self)
        requires
            self.wf(),
            self.spec.channels > 0,
        ensures
            self.samples@.len() as int % self.spec.channels as int == 0,
            self.samples@.len() >= self.frames,
            self.frames == 0 ==> self.samples@.len() == 0,
    {
        lemma_mod_multiples_basic(self.frames as int, self.spec.channels as int);
        lemma_mul_inequality(1, self.spec.channels as int, self.frames as int);
        lemma_mul_is_commutative(self.frames as int, self.spec.channels as int);
        lemma_mul_basics(self.frames as int);
        lemma_mul_basics(self.spec.channels as int);
    }
}

/// What happened to a stream whose first audio is looked for.
#[derive(Debug)]
pub enum InitEvent<S> {
    /// A packet of this track was read.
    Packet(u32),
    /// There are no more packets. This is what was decoded last.
    EndOfStream(Decoded<S>),
    /// No packet could be read.
    ReadFailed(StreamError),
    /// The packet was decoded.
    Decoded(Decoded<S>),
    /// The packet could not be decoded.
    DecodeFailed(StreamError),
}

/// What to do to find the first audio of a stream.
#[derive(Debug)]
pub enum InitAction<S> {
    /// Read another packet.
    ReadPacket,
    /// Decode the packet that was read.
    Decode,
    /// Nothing: here it is.
    Found(Decoded<S>),
    /// Nothing: there is none.
    NoAudio,
    /// Give up.
    Fail(StreamError),
}

/// What has to happen for the next sample.
#[derive(Debug)]
pub enum Step<S> {
    /// Here it is.
    Sample(S),
    /// There is none.
    Finished,
    /// A packet has to be read.
    ReadPacket,
    /// The packet that was read has to be decoded.
    Decode,
}

/// What happened to a stream that is played.
#[derive(Debug)]
pub enum Event<S> {
    /// The next sample was asked for.
    Asked,
    /// A packet of this track was read.
    Packet(u32),
    /// The packet was decoded.
    Decoded(Decoded<S>),
    /// The packet is malformed.
    Malformed,
    /// No more packets can be read or decoded.
    InputEnded,
}

/// The state of a decoder, apart from the demuxer and the codec.
#[derive(Debug)]
pub struct SymphoniaDecoder<S> {
    pub current_span_offset: usize,
    pub total_duration: Option<Duration>,
    pub buffer: Vec<S>,
    pub spec: AudioSpec,
    pub seek_mode: SeekMode,
    pub selected_track_id: u32,
    pub time_base: Option<TimeBase>,
    pub samples_in_current_frame: usize,
    pub silence_samples_remaining: usize,
    /// True when a prior seek targeted a position past the end of the stream. The decoder
    /// reports no more samples (after flushing any in-flight frame padding) until another
    /// seek resets the position.
    pub seeked_past_end: bool,
    /// A sample of silence.
    pub equilibrium: S,
}

impl<S: Copy> SymphoniaDecoder<S> {
    /// The decoder that was found, or why there is none.
    pub fn new(found: Result<Option<SymphoniaDecoder<S>>, StreamError>) -> (r: Result<
        SymphoniaDecoder<S>,
        DecoderError,
    >)
        requires
            !(found matches Err(StreamError::SeekError)),
        ensures
            r == match found {
                Ok(Some(decoder)) => Ok(decoder),
                Ok(None) => Err(DecoderError::NoStreams),
                Err(StreamError::IoError(message)) => Err(DecoderError::IoError(message)),
                Err(StreamError::DecodeError(reason)) => Err(DecoderError::DecodeError(reason)),
                Err(StreamError::LimitError(reason)) => Err(DecoderError::LimitError(reason)),
                Err(StreamError::ResetRequired) => Err(DecoderError::ResetRequired),
                Err(_) => Err(DecoderError::UnrecognizedFormat),
            },
    {
        match found {
            Err(e) => match e {
                StreamError::IoError(message) => Err(DecoderError::IoError(message)),
                StreamError::DecodeError(reason) => Err(DecoderError::DecodeError(reason)),
                StreamError::Unsupported => Err(DecoderError::UnrecognizedFormat),
                StreamError::LimitError(reason) => Err(DecoderError::LimitError(reason)),
                StreamError::ResetRequired => Err(DecoderError::ResetRequired),
                _ => Err(DecoderError::UnrecognizedFormat),
            },
            Ok(Some(decoder)) => Ok(decoder),
            Ok(None) => Err(DecoderError::NoStreams),
        }
    }

    /// Whether there is a stream to decode: a track whose codec is known, with parameters for audio
    /// that do not name the codec that stands for none.
    pub fn has_stream(track_known: bool, audio_params: bool, null_codec: bool) -> (r: bool)
        ensures
            r == (track_known && audio_params && !null_codec),
    {
        track_known && audio_params && !null_codec
    }

    /// What it means to a stream that is played that a packet was read, that there are no more, or
    /// that none could be read.
    pub fn packet_read(read: Result<Option<u32>, StreamError>) -> (r: Event<S>)
        ensures
            match read {
                Ok(Some(track_id)) => r == Event::<S>::Packet(track_id),
                Ok(None) => r is InputEnded,
                Err(_) => r is InputEnded,
            },
    {
        match read {
            Ok(Some(track_id)) => Event::Packet(track_id),
            Ok(None) | Err(_) => Event::InputEnded,
        }
    }

    /// What it means to a stream that is played that a packet could not be decoded: malformed
    /// packets are passed over, and any other failure ends it.
    pub fn decode_failed(e: StreamError) -> (r: Event<S>)
        ensures
            e is DecodeError ==> r is Malformed,
            !(e is DecodeError) ==> r is InputEnded,
    {
        match e {
            StreamError::DecodeError(_) => Event::Malformed,
            _ => Event::InputEnded,
        }
    }

    /// What to do about `event` to find the first audio of the track `selected`.
    pub open spec fn search_action(selected: u32, event: InitEvent<S>) -> InitAction<S> {
        match event {
            InitEvent::Packet(id) => if id == selected {
                InitAction::Decode
            } else {
                InitAction::ReadPacket
            },
            InitEvent::EndOfStream(last) => if last.frames > 0 {
                InitAction::Found(last)
            } else {
                InitAction::NoAudio
            },
            InitEvent::ReadFailed(e) => InitAction::Fail(e),
            InitEvent::Decoded(decoded) => if decoded.frames > 0 {
                InitAction::Found(decoded)
            } else {
                InitAction::ReadPacket
            },
            InitEvent::DecodeFailed(StreamError::DecodeError(_)) => InitAction::ReadPacket,
            InitEvent::DecodeFailed(e) => InitAction::Fail(e),
        }
    }

    /// What to do about `event` to find the first audio of the track `selected`.
    pub fn search(selected: u32, event: InitEvent<S>) -> (r: InitAction<S>)
        ensures
            r == Self::search_action(selected, event),
    {
        match event {
            InitEvent::Packet(id) => {
                // If the packet does not belong to the selected track, skip over it
                if id != selected {
                    InitAction::ReadPacket
                } else {
                    InitAction::Decode
                }
            },
            InitEvent::EndOfStream(last) => {
                if last.frames > 0 {
                    InitAction::Found(last)
                } else {
                    InitAction::NoAudio
                }
            },
            InitEvent::ReadFailed(e) => InitAction::Fail(e),
            InitEvent::Decoded(decoded) => {
                if decoded.frames > 0 {
                    InitAction::Found(decoded)
                } else {
                    // skip setup/header packets with no audio frames (e.g. Vorbis)
                    InitAction::ReadPacket
                }
            },
            InitEvent::DecodeFailed(e) => match e {
                // Decode errors are intentionally ignored with no retry limit.
                // This behavior ensures that the decoder skips over problematic packets
                // and continues processing the rest of the stream.
                StreamError::DecodeError(_) => InitAction::ReadPacket,
                _ => InitAction::Fail(e),
            },
        }
    }

    /// A decoder for `track`, whose first audio is `first`.
    pub fn init(track: Track, settings: &Settings, first: Decoded<S>, equilibrium: S) -> (r:
        SymphoniaDecoder<S>)
        ensures
            r.current_span_offset == 0,
            r.total_duration is Some <==> {
                &&& track.time_base is Some
                &&& track.playable_ticks() is Some
                &&& track.length(settings.gapless) is Some
                &&& track.length(settings.gapless)->0 != 0
            },
            r.total_duration matches Some(duration) ==> track.length(settings.gapless) == Some(
                duration@,
            ),
            r.buffer == first.samples,
            r.spec == first.spec,
            r.seek_mode == if settings.coarse_seek {
                SeekMode::Coarse
            } else {
                SeekMode::Accurate
            },
            r.selected_track_id == track.id,
            r.time_base == track.time_base,
            r.samples_in_current_frame == 0,
            r.silence_samples_remaining == 0,
            !r.seeked_past_end,
            r.equilibrium == equilibrium,
            r.wf(),
            first.wf() && first.spec.is_playable() ==> r.is_aligned(),
            first.wf() && first.spec.channels > 0 && first.frames > 0 ==> r.buffer@.len() > 0,
    {
        let seek_mode: SeekMode = if settings.coarse_seek {
            SeekMode::Coarse
        } else {
            SeekMode::Accurate
        };
        proof {
            if first.wf() && first.spec.channels > 0 {
                first.lemma_frames_are_whole();
            }
        }
        SymphoniaDecoder {
            current_span_offset: 0,
            total_duration: track.total_duration(settings.gapless),
            buffer: first.samples,
            spec: first.spec,
            seek_mode,
            selected_track_id: track.id,
            time_base: track.time_base,
            samples_in_current_frame: 0,
            silence_samples_remaining: 0,
            seeked_past_end: false,
            equilibrium,
        }
    }

    /// The samples of a frame can be counted.
    pub open spec fn wf(&self) -> bool {
        self.samples_in_current_frame < usize::MAX
    }

    /// The next sample of the buffer, where there is one.
    pub open spec fn after_emission(self) -> (SymphoniaDecoder<S>, Step<S>) {
        if self.current_span_offset < self.buffer@.len() {
            (
                SymphoniaDecoder {
                    current_span_offset: (self.current_span_offset + 1) as usize,
                    samples_in_current_frame: ((self.samples_in_current_frame + 1)
                        % self.spec.channels as int) as usize,
                    ..self
                },
                Step::Sample(self.buffer@[self.current_span_offset as int]),
            )
        } else {
            (self, Step::Finished)
        }
    }

    /// What becomes of the decoder through `event`, and what has to happen then for the sample that
    /// was asked for.
    pub open spec fn after(self, event: Event<S>) -> (SymphoniaDecoder<S>, Step<S>) {
        match event {
            Event::Asked => if self.silence_samples_remaining > 0 {
                (
                    SymphoniaDecoder {
                        silence_samples_remaining: (self.silence_samples_remaining - 1) as usize,
                        ..self
                    },
                    Step::Sample(self.equilibrium),
                )
            } else if self.seeked_past_end {
                (self, Step::Finished)
            } else if self.current_span_offset >= self.buffer@.len() {
                (self, Step::ReadPacket)
            } else {
                self.after_emission()
            },
            Event::Packet(id) => (
                self,
                if id == self.selected_track_id {
                    Step::Decode
                } else {
                    Step::ReadPacket
                },
            ),
            Event::Decoded(decoded) => if decoded.frames > 0 {
                (SymphoniaDecoder {
                    buffer: decoded.samples,
                    spec: decoded.spec,
                    current_span_offset: 0,
                    ..self
                }).after_emission()
            } else {
                (self, Step::ReadPacket)
            },
            Event::Malformed => (self, Step::ReadPacket),
            Event::InputEnded => {
                let missing = padding_needed(
                    self.samples_in_current_frame as int,
                    self.spec.channels as int,
                );
                if missing > 0 {
                    (
                        SymphoniaDecoder {
                            samples_in_current_frame: 0,
                            silence_samples_remaining: (missing - 1) as usize,
                            ..self
                        },
                        Step::Sample(self.equilibrium),
                    )
                } else {
                    (SymphoniaDecoder { silence_samples_remaining: 0, ..self }, Step::Finished)
                }
            },
        }
    }

    /// `event` can be dealt with: where it has to be known how many samples are in a frame, the
    /// number of channels is one that a source can have.
    pub open spec fn accepts(&self, event: Event<S>) -> bool {
        match event {
            Event::Asked => self.silence_samples_remaining == 0 && !self.seeked_past_end
                && self.current_span_offset < self.buffer@.len() ==> self.spec.is_playable(),
            Event::Decoded(decoded) => decoded.frames > 0 && decoded.samples@.len() > 0
                ==> decoded.spec.is_playable(),
            Event::InputEnded => self.spec.is_playable(),
            _ => true,
        }
    }

    /// Whether `event` can be dealt with.
    pub fn can_accept(&self, event: &Event<S>) -> (r: bool)
        ensures
            r == self.accepts(*event),
    {
        match event {
            Event::Asked => self.silence_samples_remaining > 0 || self.seeked_past_end
                || self.current_span_offset >= self.buffer.len() || self.spec.can_be_played(),
            Event::Decoded(decoded) => decoded.frames == 0 || decoded.samples.len() == 0
                || decoded.spec.can_be_played(),
            Event::InputEnded => self.spec.can_be_played(),
            _ => true,
        }
    }

    /// The next sample of the buffer, where there is one.
    fn emit(&mut self) -> (r: Step<S>)
        requires
            old(self).wf(),
            old(self).current_span_offset < old(self).buffer@.len()
                ==> old(self).spec.is_playable(),
        ensures
            (*final(self), r) == old(self).after_emission(),
            final(self).wf(),
    {
        if self.current_span_offset >= self.buffer.len() {
            return Step::Finished;
        }
        let sample: S = self.buffer[self.current_span_offset];
        self.current_span_offset = self.current_span_offset + 1;
        let channels: ChannelCount = self.channels();
        self.samples_in_current_frame = (self.samples_in_current_frame + 1) % (
        channels.get() as usize);
        Step::Sample(sample)
    }

    /// Deals with `event`, and says what has to happen then for the sample that was asked for.
    pub fn next(&mut self, event: Event<S>) -> (r: Step<S>)
        requires
            old(self).wf(),
            old(self).accepts(event),
        ensures
            (*final(self), r) == old(self).after(event),
            final(self).wf(),
    {
        match event {
            Event::Asked => {
                // If padding to complete a frame, return silence
                if self.silence_samples_remaining > 0 {
                    self.silence_samples_remaining = self.silence_samples_remaining - 1;
                    Step::Sample(self.equilibrium)
                } else if self.seeked_past_end {
                    Step::Finished
                } else if self.current_span_offset >= self.buffer.len() {
                    Step::ReadPacket
                } else {
                    self.emit()
                }
            },
            Event::Packet(id) => {
                if id == self.selected_track_id {
                    Step::Decode
                } else {
                    Step::ReadPacket
                }
            },
            Event::Decoded(decoded) => {
                // Loop until we get a packet with audio frames. This is necessary because some
                // formats can have packets with only metadata, particularly when rewinding, in
                // which case the stream would otherwise end.
                if decoded.frames > 0 {
                    self.buffer = decoded.samples;
                    self.spec = decoded.spec;
                    self.current_span_offset = 0;
                    self.emit()
                } else {
                    Step::ReadPacket
                }
            },
            // Skip over packets that cannot be decoded. This ensures that subsequent packets
            // are processed instead of terminating due to non-critical decode errors.
            Event::Malformed => Step::ReadPacket,
            Event::InputEnded => {
                // Input exhausted - check if mid-frame
                let channels: ChannelCount = self.channels();
                let missing: usize = padding_samples_needed(
                    self.samples_in_current_frame,
                    channels,
                );
                if missing > 0 {
                    self.samples_in_current_frame = 0;
                    self.silence_samples_remaining = missing - 1;
                    Step::Sample(self.equilibrium)
                } else {
                    self.silence_samples_remaining = 0;
                    Step::Finished
                }
            },
        }
    }

    /// The length of the current span, in samples.
    pub fn current_span_len(&self) -> (r: Option<usize>)
        ensures
            r matches Some(len) && len == self.buffer@.len(),
    {
        Some(self.buffer.len())
    }

    /// The number of channels.
    pub fn channels(&self) -> (r: ChannelCount)
        requires
            self.spec.is_playable(),
        ensures
            r@ == self.spec.channels,
    {
        match ChannelCount::new(self.spec.channels as u16) {
            Some(channels) => channels,
            None => vstd::pervasive::unreached(),
        }
    }

    /// The sample rate.
    pub fn sample_rate(&self) -> (r: SampleRate)
        requires
            self.spec.rate > 0,
        ensures
            r@ == self.spec.rate,
    {
        match SampleRate::new(self.spec.rate) {
            Some(rate) => rate,
            None => vstd::pervasive::unreached(),
        }
    }

    /// The time that the whole stream takes, where it is known.
    pub fn total_duration(&self) -> (r: Option<Duration>)
        ensures
            r == self.total_duration,
    {
        self.total_duration
    }
}

/// Error returned when a seek fails.
#[derive(Debug)]
pub enum SeekError {
    /// Accurate seeking is not supported
    ///
    /// This error occurs when the decoder cannot extract time base information from the source.
    /// You may catch this error to try a coarse seek instead.
    AccurateSeekNotSupported,
    /// The decoder does not support random access seeking
    ///
    /// This error occurs when the source is not seekable or does not have a known byte length.
    RandomAccessNotSupported,
    /// Demuxer failed to seek
    Demuxer(Arc<::symphonia::core::errors::Error>),
}

impl Clone for SeekError {
    fn clone(&self) -> (r: SeekError)
        ensures
            r == *self,
    {
        match self {
            SeekError::AccurateSeekNotSupported => SeekError::AccurateSeekNotSupported,
            SeekError::RandomAccessNotSupported => SeekError::RandomAccessNotSupported,
            SeekError::Demuxer(e) => SeekError::Demuxer(e.clone()),
        }
    }
}

/// What the demuxer is asked to seek to.
#[derive(Debug, Clone, Copy, PartialEq, Eq, Structural)]
pub struct SeekRequest {
    pub mode: SeekMode,
    pub target: Duration,
    /// The channel whose sample is due after the seek.
    pub active_channel: usize,
}

/// How a seek of the demuxer came out.
#[derive(Debug)]
pub enum SeekOutcome {
    /// The demuxer has no way to express the target.
    Unrepresentable,
    /// It cannot go back.
    ForwardOnly,
    /// The target lies outside of the stream.
    OutOfRange,
    /// It failed for another reason.
    Failed(Arc<::symphonia::core::errors::Error>),
    /// It went to the tick `actual_ts`, where `required_ts` is the target.
    Done { required_ts: i64, actual_ts: i64 },
}

/// Where the stream is after a seek of the demuxer.
#[derive(Debug, Clone, Copy, PartialEq, Eq, Structural)]
pub enum Seeked {
    /// At its end.
    AtEnd,
    /// As close to the target as was asked for.
    AtTarget,
    /// This long before the target.
    Before(Duration),
}

impl<S: Copy> SymphoniaDecoder<S> {
    /// The position that a seek to `pos`, in nanoseconds, goes to: positions beyond the end of the
    /// stream are clamped to the end.
    pub open spec fn seek_target(&self, pos: int) -> int {
        match self.total_duration {
            Some(total) => min(pos, total@),
            None => pos,
        }
    }

    /// The channel whose sample is due: the first, where nothing has been emitted since a seek.
    pub open spec fn active_channel(&self) -> int {
        if self.current_span_offset > self.buffer@.len() {
            0
        } else {
            self.current_span_offset as int % self.spec.channels as int
        }
    }

    /// What to ask of the demuxer for a seek to `pos`.
    pub fn try_seek(&self, pos: Duration) -> (r: Result<SeekRequest, SeekError>)
        requires
            self.seek_mode is Accurate && self.time_base is None || self.spec.is_playable(),
        ensures
            r is Err <==> self.seek_mode is Accurate && self.time_base is None,
            r matches Err(e) ==> e is AccurateSeekNotSupported,
            r matches Ok(request) ==> {
                &&& request.mode == self.seek_mode
                &&& request.target@ == self.seek_target(pos@)
                &&& request.active_channel == self.active_channel()
            },
    {
        if matches!(self.seek_mode, SeekMode::Accurate) && self.time_base.is_none() {
            return Err(SeekError::AccurateSeekNotSupported);
        }
        // Seeking should be "saturating", meaning: target positions beyond the end of the stream
        // are clamped to the end.
        let target: Duration = match self.total_duration {
            Some(total) => pos.shorter(total),
            None => pos,
        };
        // Remember the current channel, so we can restore it after seeking.
        let active_channel: usize = if self.current_span_offset > self.buffer.len() {
            // Nothing has been emitted since the last seek, which went to the first channel.
            0
        } else {
            self.current_span_offset % (self.channels().get() as usize)
        };
        Ok(SeekRequest { mode: self.seek_mode, target, active_channel })
    }

    /// The time, in nanoseconds, from the tick `actual_ts` to the tick `required_ts`. There is none
    /// where the former is not the earlier of the two, nor where the time cannot be represented.
    pub open spec fn distance(&self, required_ts: int, actual_ts: int) -> int {
        match tick_duration(self.time_base->0, max(required_ts - actual_ts, 0)) {
            Some(nanos) => nanos,
            None => 0,
        }
    }

    /// The time from the tick `actual_ts`, that a seek went to, to the tick `required_ts`, that it
    /// was meant to go to.
    pub fn refine_position(&self, required_ts: i64, actual_ts: i64) -> (r: Duration)
        requires
            self.time_base is Some,
            i64::MIN <= required_ts - actual_ts <= i64::MAX,
        ensures
            r@ == self.distance(required_ts as int, actual_ts as int),
            required_ts <= actual_ts ==> r@ == 0,
            ({
                let base = self.time_base->0;
                let nanos = (required_ts - actual_ts) * base.numer() * 1_000_000_000 / base.denom();
                &&& base.numer() > 0
                &&& base.denom() > 0
                &&& required_ts > actual_ts && nanos / 1_000_000_000 <= i64::MAX ==> r@ == nanos
                &&& required_ts > actual_ts && nanos / 1_000_000_000 > i64::MAX ==> r@ == 0
            }),
    {
        let delta_ticks: i64 = if required_ts > actual_ts {
            required_ts - actual_ts
        } else {
            0
        };
        match self.time_base {
            Some(base) => {
                proof {
                    use_type_invariant(&base);
                    if delta_ticks == 0 {
                        lemma_mul_basics(base.numer());
                        lemma_div_basics(base.denom());
                    }
                    self.law_distance(required_ts as int, actual_ts as int);
                }
                match calc_duration(base, delta_ticks) {
                    Some(delta) => delta,
                    None => Duration::zero(),
                }
            },
            None => Duration::zero(),
        }
    }

    /// How many samples to skip, where `samples` lie between the position and the target: only
    /// whole frames are skipped, so that the first channel is due after it.
    pub fn samples_to_skip(&self, samples: usize) -> (r: usize)
        requires
            self.spec.is_playable(),
        ensures
            r == samples - samples % self.spec.channels,
            r % self.spec.channels == 0,
    {
        // Re-align the seek position to the first channel.
        let channels: usize = self.channels().get() as usize;
        proof {
            let (s, c) = (samples as int, channels as int);
            lemma_fundamental_div_mod(s, c);
            lemma_mod_multiples_basic(s / c, c);
            lemma_mul_is_commutative(s / c, c);
        }
        samples - samples % channels
    }

    /// How many samples to pass over after a seek, where `samples` lie between the position and the
    /// target: whole frames of them, and then those of the channels before the one that was due when
    /// the seek was requested.
    pub fn samples_to_pass_over(&self, samples: usize, request: &SeekRequest) -> (r: usize)
        requires
            self.spec.is_playable(),
            samples - samples % self.spec.channels + request.active_channel <= usize::MAX,
        ensures
            r == samples - samples % self.spec.channels + request.active_channel,
    {
        // After seeking, we are at the beginning of an inter-sample frame, i.e. the first
        // channel. We need to advance to the right channel.
        self.samples_to_skip(samples) + request.active_channel
    }

    /// What becomes of the decoder through a seek of the demuxer that came out as `outcome`.
    pub open spec fn after_seek(self, outcome: SeekOutcome) -> SymphoniaDecoder<S> {
        match outcome {
            SeekOutcome::OutOfRange => SymphoniaDecoder {
                current_span_offset: usize::MAX,
                samples_in_current_frame: 0,
                silence_samples_remaining: 0,
                seeked_past_end: true,
                ..self
            },
            SeekOutcome::Done { .. } => SymphoniaDecoder {
                current_span_offset: usize::MAX,
                samples_in_current_frame: 0,
                silence_samples_remaining: 0,
                seeked_past_end: false,
                ..self
            },
            _ => self,
        }
    }

    /// Deals with a seek of the demuxer that came out as `outcome`. Where it is not an error, the
    /// codec has to be reset.
    pub fn finish_seek(&mut self, outcome: SeekOutcome) -> (r: Result<Seeked, SeekError>)
        requires
            old(self).seek_mode is Accurate ==> old(self).time_base is Some,
            outcome matches SeekOutcome::Done { required_ts, actual_ts } ==> (old(
                self,
            ).seek_mode is Accurate ==> i64::MIN <= required_ts - actual_ts <= i64::MAX),
        ensures
            *final(self) == old(self).after_seek(outcome),
            match outcome {
                SeekOutcome::Unrepresentable => r matches Err(e) && e is AccurateSeekNotSupported,
                SeekOutcome::ForwardOnly => r matches Err(e) && e is RandomAccessNotSupported,
                SeekOutcome::OutOfRange => r == Ok::<Seeked, SeekError>(Seeked::AtEnd),
                SeekOutcome::Failed(e) => r == Err::<Seeked, SeekError>(SeekError::Demuxer(e)),
                SeekOutcome::Done { required_ts, actual_ts } => match old(self).seek_mode {
                    SeekMode::Coarse => r == Ok::<Seeked, SeekError>(Seeked::AtTarget),
                    SeekMode::Accurate => r matches Ok(Seeked::Before(delta)) && delta@
                        == old(self).distance(required_ts as int, actual_ts as int) && (
                    required_ts <= actual_ts ==> delta@ == 0),
                },
            },
    {
        match outcome {
            SeekOutcome::Unrepresentable => Err(SeekError::AccurateSeekNotSupported),
            SeekOutcome::ForwardOnly => Err(SeekError::RandomAccessNotSupported),
            SeekOutcome::OutOfRange => {
                // Saturate seeks past the end of the stream to the end.
                self.current_span_offset = usize::MAX;
                self.samples_in_current_frame = 0;
                self.silence_samples_remaining = 0;
                self.seeked_past_end = true;
                Ok(Seeked::AtEnd)
            },
            SeekOutcome::Failed(e) => Err(SeekError::Demuxer(e)),
            SeekOutcome::Done { required_ts, actual_ts } => {
                // Force the next packet to be decoded. It starts with the first channel.
                self.current_span_offset = usize::MAX;
                self.samples_in_current_frame = 0;
                self.silence_samples_remaining = 0;
                self.seeked_past_end = false;
                // The demuxer does not seek to the exact position, it seeks to the closest
                // keyframe. If accurate seeking is required, fast-forward to the exact position.
                if matches!(self.seek_mode, SeekMode::Accurate) {
                    Ok(Seeked::Before(self.refine_position(required_ts, actual_ts)))
                } else {
                    Ok(Seeked::AtTarget)
                }
            },
        }
    }

    /// The decoder after `n` more samples have been asked for without reading a packet.
    pub open spec fn after_asking(self, n: nat) -> SymphoniaDecoder<S>
        decreases n,
    {
        if n == 0 {
            self
        } else {
            self.after_asking((n - 1) as nat).after(Event::Asked).0
        }
    }

    /// Decoded samples are emitted in their order, one for each time that a sample is asked for,
    /// and the position within the frame keeps count of them.
    pub proof fn law_decoded_samples_are_emitted_in_order(self, n: nat)
        requires
            self.wf(),
            self.spec.is_playable(),
            self.samples_in_current_frame < self.spec.channels,
            self.silence_samples_remaining == 0,
            !self.seeked_past_end,
            self.current_span_offset + n < self.buffer@.len() <= usize::MAX,
        ensures
            self.after_asking(n) == (SymphoniaDecoder {
                current_span_offset: (self.current_span_offset + n) as usize,
                samples_in_current_frame: ((self.samples_in_current_frame + n)
                    % self.spec.channels as int) as usize,
                ..self
            }),
            self.after_asking(n).after(Event::Asked).1 == Step::Sample(
                self.buffer@[self.current_span_offset + n],
            ),
        decreases n,
    {
        let c = self.spec.channels as int;
        let start = self.samples_in_current_frame as int;
        if n == 0 {
            lemma_small_mod(start as nat, c as nat);
        } else {
            self.law_decoded_samples_are_emitted_in_order((n - 1) as nat);
            lemma_add_mod_noop(start + n - 1, 1, c);
            lemma_add_mod_noop((start + n - 1) % c, 1, c);
            lemma_mod_twice(start + n - 1, c);
        }
    }

    /// Where the input ends within a frame, the frame is completed with silence, and nothing
    /// follows it.
    pub proof fn law_last_frame_is_completed_with_silence(self, n: nat)
        requires
            self.wf(),
            self.spec.is_playable(),
            self.current_span_offset >= self.buffer@.len(),
            n < padding_needed(self.samples_in_current_frame as int, self.spec.channels as int),
        ensures
            // The missing samples: the first in answer to the end of the input, the others to being
            // asked for more.
            self.after(Event::InputEnded).1 == Step::Sample(self.equilibrium),
            n + 1 < padding_needed(
                self.samples_in_current_frame as int,
                self.spec.channels as int,
            ) ==> self.after(Event::InputEnded).0.after_asking(n).after(Event::Asked).1
                == Step::Sample(self.equilibrium),
            // The end.
            n + 1 == padding_needed(
                self.samples_in_current_frame as int,
                self.spec.channels as int,
            ) ==> ({
                let last = self.after(Event::InputEnded).0.after_asking(n);
                &&& last.after(Event::Asked).0 == last
                &&& last.after(Event::Asked).1 == if self.seeked_past_end {
                    Step::<S>::Finished
                } else {
                    Step::<S>::ReadPacket
                }
                &&& last.after(Event::InputEnded) == (last, Step::<S>::Finished)
            }),
    {
        self.lemma_silence_is_counted_down(n);
        lemma_small_mod(0, self.spec.channels as nat);
    }

    /// Each sample of silence that is emitted is one less to come.
    proof fn lemma_silence_is_counted_down(self, n: nat)
        requires
            self.wf(),
            self.spec.is_playable(),
            n < padding_needed(self.samples_in_current_frame as int, self.spec.channels as int),
        ensures
            self.after(Event::InputEnded).0.after_asking(n) == (SymphoniaDecoder {
                samples_in_current_frame: 0,
                silence_samples_remaining: (padding_needed(
                    self.samples_in_current_frame as int,
                    self.spec.channels as int,
                ) - 1 - n) as usize,
                ..self
            }),
        decreases n,
    {
        if n > 0 {
            self.lemma_silence_is_counted_down((n - 1) as nat);
        }
    }

    /// Where the input ends between frames, nothing follows.
    pub proof fn law_complete_frames_end_at_once(self)
        requires
            self.spec.is_playable(),
            self.silence_samples_remaining == 0,
            self.samples_in_current_frame as int % self.spec.channels as int == 0,
        ensures
            self.after(Event::InputEnded) == (self, Step::<S>::Finished),
    {
    }

    /// A seek past the end of the stream leaves the stream at its end: however often a sample is
    /// asked for, there is none.
    pub proof fn law_seeking_past_the_end_saturates(self, n: nat)
        ensures
            self.after_seek(SeekOutcome::OutOfRange).after_asking(n) == self.after_seek(
                SeekOutcome::OutOfRange,
            ),
            self.after_seek(SeekOutcome::OutOfRange).after_asking(n).after(Event::Asked).1
                == Step::<S>::Finished,
        decreases n,
    {
        if n > 0 {
            self.law_seeking_past_the_end_saturates((n - 1) as nat);
        }
    }

    /// After any seek that goes somewhere within the stream, a packet is read before a sample is
    /// emitted.
    pub proof fn law_seeking_discards_decoded_samples(self, required_ts: i64, actual_ts: i64)
        ensures
            self.after_seek(SeekOutcome::Done { required_ts, actual_ts }).after(Event::Asked).1
                == Step::<S>::ReadPacket,
    {
        assert(self.buffer.len() == self.buffer@.len());
    }

    /// A seek never goes beyond the end of the stream, and is exact within it.
    pub proof fn law_seek_target_is_clamped(self, pos: int)
        ensures
            self.total_duration is Some ==> self.seek_target(pos) <= self.total_duration->0@,
            self.total_duration is Some && pos <= self.total_duration->0@ ==> self.seek_target(pos)
                == pos,
            self.total_duration is Some && pos >= self.total_duration->0@ ==> self.seek_target(pos)
                == self.total_duration->0@,
            self.total_duration is None ==> self.seek_target(pos) == pos,
    {
    }
}

/// `event` may happen after `step`: packets are read and decoded when that is what has to happen,
/// and otherwise the next sample is asked for. What is decoded are whole frames of `channels`
/// samples.
pub open spec fn follows<S>(step: Step<S>, event: Event<S>, channels: int) -> bool {
    match step {
        Step::Sample(_) | Step::Finished => event is Asked,
        Step::ReadPacket => event is Packet || event is InputEnded,
        Step::Decode => match event {
            Event::Decoded(decoded) => {
                &&& decoded.spec.channels == channels
                &&& decoded.samples@.len() == decoded.frames * channels
            },
            Event::Malformed | Event::InputEnded => true,
            _ => false,
        },
    }
}

impl<S: Copy> SymphoniaDecoder<S> {
    /// What becomes of the decoder through `events`, what has to happen then, and the samples that
    /// were emitted meanwhile.
    pub open spec fn played(self, events: Seq<Event<S>>) -> (
        SymphoniaDecoder<S>,
        Step<S>,
        Seq<S>,
    )
        decreases events.len(),
    {
        if events.len() == 0 {
            (self, Step::Finished, Seq::empty())
        } else {
            let (before, _, emitted) = self.played(events.drop_last());
            let (after, step) = before.after(events.last());
            (
                after,
                step,
                match step {
                    Step::Sample(sample) => emitted.push(sample),
                    _ => emitted,
                },
            )
        }
    }

    /// Each of `events` may happen after the one before it.
    pub open spec fn can_play(self, events: Seq<Event<S>>) -> bool
        decreases events.len(),
    {
        events.len() > 0 ==> {
            &&& self.can_play(events.drop_last())
            &&& follows(
                self.played(events.drop_last()).1,
                events.last(),
                self.spec.channels as int,
            )
        }
    }

    /// Whatever happens to the stream, only whole frames have been emitted whenever it comes to an
    /// end.
    pub proof fn law_only_whole_frames_are_emitted(self, events: Seq<Event<S>>)
        requires
            self.spec.is_playable(),
            self.samples_in_current_frame == 0,
            self.silence_samples_remaining == 0,
            !self.seeked_past_end,
            self.can_play(events),
        ensures
            self.played(events).1 is Finished ==> self.played(events).2.len() as int
                % self.spec.channels as int == 0,
    {
        self.lemma_frame_position_counts_emitted_samples(events);
        let (last, _, emitted) = self.played(events);
        if self.played(events).1 is Finished {
            assert(emitted.len() + last.silence_samples_remaining == emitted.len());
        }
    }

    /// The position within the frame is the number of samples that were emitted or are certain to
    /// be, counted by whole frames.
    proof fn lemma_frame_position_counts_emitted_samples(self, events: Seq<Event<S>>)
        requires
            self.spec.is_playable(),
            self.samples_in_current_frame == 0,
            self.silence_samples_remaining == 0,
            !self.seeked_past_end,
            self.can_play(events),
        ensures
            ({
                let (last, step, emitted) = self.played(events);
                let c = self.spec.channels as int;
                &&& last.spec.channels == c
                &&& !last.seeked_past_end
                &&& last.samples_in_current_frame < c
                &&& !(step is Sample) ==> last.silence_samples_remaining == 0
                &&& last.silence_samples_remaining < c
                &&& (emitted.len() + last.silence_samples_remaining) % c
                    == last.samples_in_current_frame
                &&& step is Finished ==> last.samples_in_current_frame == 0
            }),
        decreases events.len(),
    {
        let c = self.spec.channels as int;
        lemma_small_mod(0, c as nat);
        if events.len() > 0 {
            let earlier = events.drop_last();
            self.lemma_frame_position_counts_emitted_samples(earlier);
            let (before, step, emitted) = self.played(earlier);
            let event = events.last();
            let position = before.samples_in_current_frame as int;
            let count = emitted.len() as int;
            lemma_small_mod(position as nat, c as nat);
            lemma_add_mod_noop(count, 1, c);
            lemma_add_mod_noop(position, 1, c);
            lemma_mod_twice(count, c);
            match event {
                Event::Decoded(decoded) => {
                    if decoded.frames > 0 {
                        lemma_mul_inequality(1, decoded.frames as int, c);
                        lemma_mul_basics(c);
                        assert(before.silence_samples_remaining == 0);
                    }
                },
                Event::InputEnded => {
                    let missing = padding_needed(position, c);
                    if missing > 0 {
                        lemma_add_mod_noop(count, missing, c);
                        lemma_add_mod_noop(position, missing, c);
                        crate::source::law_padding_completes_the_frame(position, c, missing);
                        assert((count + 1) + (missing - 1) == count + missing);
                    }
                },
                _ => {},
            }
        }
    }
}

impl<S: Copy> SymphoniaDecoder<S> {
    /// What a search does in the end about `events`, one after the other: the first that decides
    /// it does. It goes on where none does.
    pub open spec fn searched(selected: u32, events: Seq<InitEvent<S>>) -> InitAction<S>
        decreases events.len(),
    {
        if events.len() == 0 {
            InitAction::ReadPacket
        } else {
            let action = Self::search_action(selected, events[0]);
            if action is ReadPacket || action is Decode {
                if events.len() == 1 {
                    action
                } else {
                    Self::searched(selected, events.skip(1))
                }
            } else {
                action
            }
        }
    }

    /// A search goes on after `event`: it is that a packet was read, that it holds no audio, or
    /// that it is malformed.
    pub open spec fn is_passed_over(event: InitEvent<S>) -> bool {
        match event {
            InitEvent::Packet(_) => true,
            InitEvent::Decoded(decoded) => decoded.frames == 0,
            InitEvent::DecodeFailed(StreamError::DecodeError(_)) => true,
            _ => false,
        }
    }

    /// A search decides by the first event that it does not pass over, however many precede it.
    pub proof fn law_search_passes_over(
        selected: u32,
        passed_over: Seq<InitEvent<S>>,
        events: Seq<InitEvent<S>>,
    )
        requires
            forall|i: int|
                0 <= i < passed_over.len() ==> Self::is_passed_over(#[trigger] passed_over[i]),
            events.len() > 0,
        ensures
            Self::searched(selected, passed_over + events) == Self::searched(selected, events),
        decreases passed_over.len(),
    {
        if passed_over.len() == 0 {
            assert(passed_over + events == events);
        } else {
            assert(Self::is_passed_over(passed_over[0]));
            assert((passed_over + events).skip(1) == passed_over.skip(1) + events);
            Self::law_search_passes_over(selected, passed_over.skip(1), events);
        }
    }

    /// A search ends with the first event that is not passed over: audio of the track, or that was
    /// left in the codec at the end of the stream, is found, the end without audio means that
    /// there is none, and any failure but that of a malformed packet fails it.
    pub proof fn law_search_ends_with_what_decides_it(
        selected: u32,
        passed_over: Seq<InitEvent<S>>,
        deciding: InitEvent<S>,
    )
        requires
            forall|i: int|
                0 <= i < passed_over.len() ==> Self::is_passed_over(#[trigger] passed_over[i]),
            !Self::is_passed_over(deciding),
        ensures
            Self::searched(selected, passed_over.push(deciding)) == match deciding {
                InitEvent::Decoded(first) => InitAction::Found(first),
                InitEvent::EndOfStream(last) => if last.frames > 0 {
                    InitAction::Found(last)
                } else {
                    InitAction::NoAudio
                },
                InitEvent::ReadFailed(e) => InitAction::Fail(e),
                InitEvent::DecodeFailed(e) => InitAction::Fail(e),
                InitEvent::Packet(_) => InitAction::ReadPacket,
            },
    {
        let events = seq![deciding];
        assert(passed_over.push(deciding) == passed_over + events);
        Self::law_search_passes_over(selected, passed_over, events);
    }

    /// Packets of other tracks, without audio or malformed make no difference to a search, wherever
    /// they stand before the packet that decides it: with and without them it comes to the same.
    pub proof fn law_packets_passed_over_make_no_difference(
        selected: u32,
        before: Seq<InitEvent<S>>,
        added: Seq<InitEvent<S>>,
        after: Seq<InitEvent<S>>,
    )
        requires
            forall|i: int| 0 <= i < before.len() ==> Self::is_passed_over(#[trigger] before[i]),
            forall|i: int| 0 <= i < added.len() ==> Self::is_passed_over(#[trigger] added[i]),
            after.len() > 0,
        ensures
            Self::searched(selected, before + added + after) == Self::searched(
                selected,
                before + after,
            ),
    {
        Self::law_search_passes_over(selected, before + added, after);
        Self::law_search_passes_over(selected, before, after);
    }

    /// What a search finds is audio: the span of a decoder that is made from it is not empty, and
    /// its first sample is emitted at once.
    pub proof fn law_new_decoder_is_not_exhausted(
        selected: u32,
        event: InitEvent<S>,
        first: Decoded<S>,
        decoder: SymphoniaDecoder<S>,
    )
        requires
            event matches InitEvent::Decoded(decoded) ==> decoded.wf() && decoded.spec.channels > 0,
            event matches InitEvent::EndOfStream(last) ==> last.wf() && last.spec.channels > 0,
            Self::search_action(selected, event) == InitAction::Found(first),
            decoder.buffer == first.samples,
            decoder.current_span_offset == 0,
            decoder.silence_samples_remaining == 0,
            !decoder.seeked_past_end,
        ensures
            first.frames > 0,
            decoder.buffer@.len() > 0,
            decoder.after(Event::Asked).1 == Step::Sample(first.samples@[0]),
    {
        first.lemma_frames_are_whole();
    }

    /// The buffer holds whole frames, and the count of samples in the frame is the channel that is
    /// due.
    pub open spec fn is_aligned(&self) -> bool {
        &&& self.spec.is_playable()
        &&& self.buffer@.len() as int % self.spec.channels as int == 0
        &&& self.silence_samples_remaining == 0
        &&& self.samples_in_current_frame == self.active_channel()
    }

    /// The samples of the buffer that have not been emitted.
    pub open spec fn unplayed(&self) -> Seq<S> {
        if self.current_span_offset <= self.buffer@.len() {
            self.buffer@.skip(self.current_span_offset as int)
        } else {
            Seq::empty()
        }
    }

    /// A decoder stays aligned, whatever happens to the stream. Each event hands samples on from
    /// what was decoded to what is emitted, and silence is never added to whole frames.
    proof fn lemma_event_keeps_alignment(self, step: Step<S>, event: Event<S>)
        requires
            self.is_aligned(),
            follows(step, event, self.spec.channels as int),
            step is ReadPacket || step is Decode ==> self.current_span_offset >= self.buffer@.len()
                && !self.seeked_past_end,
            self.seeked_past_end ==> self.samples_in_current_frame == 0,
        ensures
            ({
                let (after, next) = self.after(event);
                &&& after.is_aligned()
                &&& after.spec.channels == self.spec.channels
                &&& after.seeked_past_end == self.seeked_past_end
                &&& next is ReadPacket || next is Decode ==> after.current_span_offset
                    >= after.buffer@.len() && !after.seeked_past_end
                &&& next is Finished ==> after.samples_in_current_frame == 0
                &&& next is Finished && !after.seeked_past_end ==> after.unplayed().len() == 0
                &&& next is Sample ==> after.samples_in_current_frame == (
                self.samples_in_current_frame + 1) % self.spec.channels as int
                &&& !(next is Sample) ==> after.samples_in_current_frame
                    == self.samples_in_current_frame
                &&& (match event {
                    Event::Decoded(decoded) => self.unplayed() + decoded.samples@,
                    _ => self.unplayed(),
                }) == (match next {
                    Step::Sample(sample) => seq![sample] + after.unplayed(),
                    _ => after.unplayed(),
                })
            }),
    {
        let c = self.spec.channels as int;
        let (after, next) = self.after(event);
        lemma_small_mod(0, c as nat);
        assert(self.buffer.len() == self.buffer@.len());
        match event {
            Event::Asked => {
                if next is Sample {
                    let offset = self.current_span_offset as int;
                    lemma_add_mod_noop(offset, 1, c);
                    lemma_mod_twice(offset, c);
                    lemma_add_mod_noop(offset % c, 1, c);
                    assert(self.unplayed() == seq![self.buffer@[offset]] + after.unplayed());
                }
            },
            Event::Decoded(decoded) => {
                decoded.lemma_frames_are_whole();
                assert(self.unplayed() == Seq::<S>::empty());
                assert(self.samples_in_current_frame == 0);
                assert(self.unplayed() + decoded.samples@ == decoded.samples@);
                if decoded.frames > 0 {
                    lemma_add_mod_noop(0, 1, c);
                    assert(decoded.samples@ == seq![decoded.samples@[0]] + after.unplayed());
                }
            },
            Event::InputEnded => {
                assert(self.samples_in_current_frame == 0);
                assert(self.unplayed() == Seq::<S>::empty());
            },
            _ => {},
        }
    }

    /// A seek leaves a decoder aligned.
    pub proof fn law_seeks_keep_alignment(self, outcome: SeekOutcome)
        requires
            self.is_aligned(),
        ensures
            self.after_seek(outcome).is_aligned(),
            outcome is Done || outcome is OutOfRange ==> {
                &&& self.after_seek(outcome).samples_in_current_frame == 0
                &&& self.after_seek(outcome).unplayed().len() == 0
            },
    {
        assert(self.buffer.len() == self.buffer@.len());
        lemma_small_mod(0, self.spec.channels as nat);
    }

    /// The samples of all the packets among `events` that were decoded, in their order.
    pub open spec fn decoded_samples(events: Seq<Event<S>>) -> Seq<S>
        decreases events.len(),
    {
        if events.len() == 0 {
            Seq::empty()
        } else {
            let earlier = Self::decoded_samples(events.drop_last());
            match events.last() {
                Event::Decoded(decoded) => earlier + decoded.samples@,
                _ => earlier,
            }
        }
    }

    /// A run emits the samples of the packets that were decoded, one packet after the other, and
    /// nothing else: what has been emitted and what is still in the buffer is what was in the
    /// buffer and all that was decoded since. When the run comes to its end, all of it has been
    /// emitted. Packets of other tracks, without audio or malformed add nothing and end nothing.
    pub proof fn law_run_emits_the_decoded_packets(self, events: Seq<Event<S>>)
        requires
            self.is_aligned(),
            !self.seeked_past_end,
            self.can_play(events),
        ensures
            self.played(events).2 + self.played(events).0.unplayed() == self.unplayed()
                + Self::decoded_samples(events),
            self.played(events).1 is Finished && events.len() > 0 ==> self.played(events).2
                == self.unplayed() + Self::decoded_samples(events),
            self.played(events).0.is_aligned(),
            self.played(events).0.spec.channels == self.spec.channels,
            self.played(events).0.samples_in_current_frame == (self.samples_in_current_frame
                + self.played(events).2.len()) % self.spec.channels as int,
    {
        self.lemma_run_emits_the_decoded_packets(events);
        let (last, step, emitted) = self.played(events);
        if step is Finished && events.len() > 0 {
            assert(emitted + last.unplayed() == emitted);
        }
    }

    proof fn lemma_run_emits_the_decoded_packets(self, events: Seq<Event<S>>)
        requires
            self.is_aligned(),
            !self.seeked_past_end,
            self.can_play(events),
        ensures
            ({
                let (last, step, emitted) = self.played(events);
                &&& emitted + last.unplayed() == self.unplayed() + Self::decoded_samples(events)
                &&& last.is_aligned()
                &&& last.spec.channels == self.spec.channels
                &&& !last.seeked_past_end
                &&& step is ReadPacket || step is Decode ==> last.current_span_offset
                    >= last.buffer@.len()
                &&& step is Finished && events.len() > 0 ==> last.unplayed().len() == 0
                &&& last.samples_in_current_frame == (self.samples_in_current_frame
                    + emitted.len()) % self.spec.channels as int
            }),
        decreases events.len(),
    {
        let c = self.spec.channels as int;
        if events.len() == 0 {
            assert(self.unplayed() + Seq::<S>::empty() == Seq::<S>::empty() + self.unplayed());
            lemma_mod_bound(self.current_span_offset as int, c);
            lemma_small_mod(self.samples_in_current_frame as nat, c as nat);
        } else {
            let earlier = events.drop_last();
            self.lemma_run_emits_the_decoded_packets(earlier);
            let (before, step, emitted) = self.played(earlier);
            let (after, next) = before.after(events.last());
            before.lemma_event_keeps_alignment(step, events.last());
            let count = self.samples_in_current_frame + emitted.len();
            lemma_add_mod_noop(count, 1, c);
            lemma_mod_twice(count, c);
            lemma_add_mod_noop(count % c, 1, c);
            let all = self.unplayed() + Self::decoded_samples(earlier);
            match events.last() {
                Event::Decoded(decoded) => {
                    assert(self.unplayed() + Self::decoded_samples(events) == all
                        + decoded.samples@);
                    assert(emitted + (before.unplayed() + decoded.samples@) == all
                        + decoded.samples@);
                },
                _ => {},
            }
            if let Step::Sample(sample) = next {
                assert(emitted.push(sample) + after.unplayed() == emitted + (seq![sample]
                    + after.unplayed()));
            }
        }
    }

    /// A seek restores the channel: once the samples that lie before the target, in whole frames,
    /// and as many as the request names have been skipped after it, the sample that is due belongs
    /// to the channel that was due before it.
    pub proof fn law_seeking_restores_the_channel(
        self,
        required_ts: i64,
        actual_ts: i64,
        skipped: int,
        events: Seq<Event<S>>,
    )
        requires
            self.is_aligned(),
            skipped >= 0,
            skipped % self.spec.channels as int == 0,
            self.after_seek(SeekOutcome::Done { required_ts, actual_ts }).can_play(events),
            self.after_seek(SeekOutcome::Done { required_ts, actual_ts }).played(events).2.len()
                == skipped + self.active_channel(),
        ensures
            self.after_seek(SeekOutcome::Done { required_ts, actual_ts }).played(
                events,
            ).0.active_channel() == self.active_channel(),
    {
        let outcome = SeekOutcome::Done { required_ts, actual_ts };
        let c = self.spec.channels as int;
        let channel = self.active_channel();
        self.law_seeks_keep_alignment(outcome);
        self.after_seek(outcome).law_run_emits_the_decoded_packets(events);
        lemma_add_mod_noop(skipped, channel, c);
        lemma_mod_bound(self.current_span_offset as int, c);
        lemma_small_mod(0, c as nat);
        lemma_small_mod(channel as nat, c as nat);
    }

    /// A seek right after a seek is as if there had been only the second: nothing is skipped to
    /// restore a channel.
    pub proof fn law_second_seek_starts_at_the_first_channel(self, first: SeekOutcome)
        requires
            self.is_aligned(),
            first is Done || first is OutOfRange,
        ensures
            self.after_seek(first).active_channel() == 0,
            forall|second: SeekOutcome|
                second is Done || second is OutOfRange ==> #[trigger] self.after_seek(
                    first,
                ).after_seek(second) == self.after_seek(second),
    {
        self.law_seeks_keep_alignment(first);
    }
}

/// What happens to a decoder that is played and seeks now and then.
#[derive(Debug)]
pub enum Happening<S> {
    Event(Event<S>),
    Seek(SeekOutcome),
}

impl<S: Copy> SymphoniaDecoder<S> {
    /// What becomes of the decoder through `happenings`, what has to happen then, and the samples
    /// that were emitted since the last seek that went somewhere.
    pub open spec fn played_with_seeks(self, happenings: Seq<Happening<S>>) -> (
        SymphoniaDecoder<S>,
        Step<S>,
        Seq<S>,
    )
        decreases happenings.len(),
    {
        if happenings.len() == 0 {
            (self, Step::Finished, Seq::empty())
        } else {
            let (before, step, emitted) = self.played_with_seeks(happenings.drop_last());
            match happenings.last() {
                Happening::Event(event) => {
                    let (after, next) = before.after(event);
                    (
                        after,
                        next,
                        match next {
                            Step::Sample(sample) => emitted.push(sample),
                            _ => emitted,
                        },
                    )
                },
                Happening::Seek(outcome) => if outcome is Done || outcome is OutOfRange {
                    (before.after_seek(outcome), Step::Finished, Seq::empty())
                } else {
                    (before, step, emitted)
                },
            }
        }
    }

    /// Each of `happenings` may follow the one before it: a seek may wherever the next sample may
    /// be asked for.
    pub open spec fn can_play_with_seeks(self, happenings: Seq<Happening<S>>) -> bool
        decreases happenings.len(),
    {
        happenings.len() > 0 ==> {
            let step = self.played_with_seeks(happenings.drop_last()).1;
            &&& self.can_play_with_seeks(happenings.drop_last())
            &&& match happenings.last() {
                Happening::Event(event) => follows(step, event, self.spec.channels as int),
                Happening::Seek(_) => step is Sample || step is Finished,
            }
        }
    }

    /// Whatever happens to the stream, and however often it seeks, only whole frames have been
    /// emitted since the last seek whenever it comes to an end, none of them completed with
    /// silence.
    pub proof fn law_only_whole_frames_are_emitted_between_seeks(
        self,
        happenings: Seq<Happening<S>>,
    )
        requires
            self.is_aligned(),
            self.samples_in_current_frame == 0,
            !self.seeked_past_end,
            self.can_play_with_seeks(happenings),
        ensures
            ({
                let (last, step, emitted) = self.played_with_seeks(happenings);
                &&& last.is_aligned()
                &&& last.spec.channels == self.spec.channels
                &&& last.active_channel() == emitted.len() as int % self.spec.channels as int
                &&& step is Finished ==> emitted.len() as int % self.spec.channels as int == 0
                &&& step is ReadPacket || step is Decode ==> last.current_span_offset
                    >= last.buffer@.len() && !last.seeked_past_end
                &&& last.seeked_past_end ==> last.samples_in_current_frame == 0
            }),
        decreases happenings.len(),
    {
        let c = self.spec.channels as int;
        lemma_small_mod(0, c as nat);
        if happenings.len() > 0 {
            let earlier = happenings.drop_last();
            self.law_only_whole_frames_are_emitted_between_seeks(earlier);
            let (before, step, emitted) = self.played_with_seeks(earlier);
            match happenings.last() {
                Happening::Event(event) => {
                    before.lemma_event_keeps_alignment(step, event);
                    let count = emitted.len() as int;
                    lemma_add_mod_noop(count, 1, c);
                    lemma_mod_twice(count, c);
                    lemma_add_mod_noop(count % c, 1, c);
                },
                Happening::Seek(outcome) => {
                    before.law_seeks_keep_alignment(outcome);
                },
            }
        }
    }
}

/// The reported time of a tick is the time that all the ticks up to it take, to the nanosecond, as
/// long as its whole seconds can be counted. A tick less than a second before the start is reported
/// like the one as long after it; those before that count for nothing.
pub proof fn law_tick_duration(base: TimeBase, ts: int)
    requires
        base.numer() > 0,
        base.denom() > 0,
        ts >= 0,
    ensures
        ({
            let nanos = ts * base.numer() * 1_000_000_000 / base.denom();
            &&& nanos / 1_000_000_000 <= i64::MAX ==> tick_duration(base, ts) == Some(nanos)
            &&& nanos / 1_000_000_000 > i64::MAX ==> tick_duration(base, ts) is None
            &&& nanos < 1_000_000_000 ==> tick_duration(base, -ts) == Some(nanos)
            &&& 1_000_000_000 <= nanos <= 0x8000_0000_0000_0000 * 1_000_000_000 ==> tick_duration(
                base,
                -ts,
            ) == Some(0int)
            &&& nanos > 0x8000_0000_0000_0000 * 1_000_000_000 ==> tick_duration(base, -ts) is None
        }),
{
    law_tick_nanos(base.numer(), base.denom(), ts);
    let nanos = ts * base.numer() * 1_000_000_000 / base.denom();
    lemma_mul_nonnegative(ts, base.numer());
    lemma_div_pos_is_pos(ts * base.numer() * 1_000_000_000, base.denom());
}

/// Ticks add up: the time of two stretches together is that of both, but for the nanosecond that
/// may be lost in cutting each off.
pub proof fn law_ticks_add_up(base: TimeBase, a: int, b: int)
    requires
        base.numer() > 0,
        base.denom() > 0,
        a >= 0,
        b >= 0,
        tick_duration(base, a + b) is Some,
    ensures
        tick_duration(base, a) is Some,
        tick_duration(base, b) is Some,
        ({
            let together = tick_duration(base, a + b)->0;
            let apart = tick_duration(base, a)->0 + tick_duration(base, b)->0;
            apart <= together <= apart + 1
        }),
{
    let (n, d) = (base.numer(), base.denom());
    law_tick_duration(base, a);
    law_tick_duration(base, b);
    law_tick_duration(base, a + b);
    law_tick_nanos(n, d, a);
    law_tick_nanos(n, d, b);
    law_tick_nanos(n, d, a + b);
    let (x, y, z) = (tick_nanos(n, d, a), tick_nanos(n, d, b), tick_nanos(n, d, a + b));
    assert(a * n * 1_000_000_000 + b * n * 1_000_000_000 == (a + b) * n * 1_000_000_000)
        by (nonlinear_arith);
    assert(0 <= x && 0 <= y && x + y <= z <= x + y + 1) by (nonlinear_arith)
        requires
            d > 0,
            0 <= x * d <= a * n * 1_000_000_000 < (x + 1) * d,
            0 <= y * d <= b * n * 1_000_000_000 < (y + 1) * d,
            0 <= z * d <= (a + b) * n * 1_000_000_000 < (z + 1) * d,
            a * n * 1_000_000_000 + b * n * 1_000_000_000 == (a + b) * n * 1_000_000_000,
    ;
    lemma_div_is_ordered(x, z, 1_000_000_000);
    lemma_div_is_ordered(y, z, 1_000_000_000);
}

impl Track {
    /// What is trimmed for gapless playback is what the encoder put before and behind the sound, and
    /// without it all of that is played. The length of the sound is the duration, where it is told,
    /// and else the number of frames.
    pub proof fn law_what_is_played(&self)
        ensures
            self.trim_ticks(true) == 0,
            self.delay is Some && self.padding is Some ==> self.trim_ticks(false) == self.delay->0
                + self.padding->0,
            self.delay is Some && self.padding is None ==> self.trim_ticks(false) == self.delay->0,
            self.delay is None && self.padding is Some ==> self.trim_ticks(false)
                == self.padding->0,
            self.delay is None && self.padding is None ==> self.trim_ticks(false) == 0,
            self.duration is Some ==> self.playable_ticks() == self.duration,
            self.duration is None ==> self.playable_ticks() == self.num_frames,
    {
    }

    /// The length is the time of all the ticks that are played.
    pub proof fn law_length(&self, gapless: bool, ticks: int)
        requires
            self.time_base is Some,
            self.playable_ticks() is Some,
            self.time_base->0.numer() > 0,
            self.time_base->0.denom() > 0,
            ticks == self.playable_ticks()->0 + self.trim_ticks(gapless),
            0 <= ticks <= i64::MAX,
        ensures
            ({
                let nanos = ticks * self.time_base->0.numer() * 1_000_000_000
                    / self.time_base->0.denom();
                &&& nanos / 1_000_000_000 <= i64::MAX ==> self.length(gapless) == Some(nanos)
                &&& nanos / 1_000_000_000 > i64::MAX ==> self.length(gapless) is None
            }),
    {
        law_tick_duration(self.time_base->0, ticks);
    }

    /// A length of more ticks than a timestamp can hold is taken for a point before the start, as far
    /// before it as the ticks are short of the whole range, where those that cannot be counted are
    /// left out.
    pub proof fn law_length_wraps_around(&self, gapless: bool, ticks: int, short: int)
        requires
            self.time_base is Some,
            self.playable_ticks() is Some,
            self.time_base->0.numer() > 0,
            self.time_base->0.denom() > 0,
            ticks == self.playable_ticks()->0 + self.trim_ticks(gapless),
            ticks > i64::MAX,
            ticks <= u64::MAX ==> short == 0x1_0000_0000_0000_0000 - ticks,
            ticks >= u64::MAX ==> short == 1,
        ensures
            ({
                let nanos = short * self.time_base->0.numer() * 1_000_000_000
                    / self.time_base->0.denom();
                &&& nanos < 1_000_000_000 ==> self.length(gapless) == Some(nanos)
                &&& 1_000_000_000 <= nanos <= 0x8000_0000_0000_0000 * 1_000_000_000 ==> self.length(
                    gapless,
                ) == Some(0int)
                &&& nanos > 0x8000_0000_0000_0000 * 1_000_000_000 ==> self.length(gapless) is None
            }),
    {
        law_tick_duration(self.time_base->0, short);
    }
}

/// A number of ticks and the timestamp that it is taken for are the same modulo the range of a
/// timestamp.
pub proof fn law_as_timestamp(ticks: int)
    requires
        0 <= ticks <= u64::MAX,
    ensures
        i64::MIN <= as_timestamp(ticks) <= i64::MAX,
        as_timestamp(ticks) == ticks || as_timestamp(ticks) + 0x1_0000_0000_0000_0000 == ticks,
{
}

impl AudioSpec {
    /// Audio can be played if and only if it has a channel, and no more than can be counted.
    pub proof fn law_is_playable(&self)
        ensures
            self.channels == 0 ==> !self.is_playable(),
            1 <= self.channels <= 65_535 ==> self.is_playable(),
            self.channels > 65_535 ==> !self.is_playable(),
    {
    }
}

impl<S: Copy> SymphoniaDecoder<S> {
    /// A search finds audio where there are frames, and nowhere else; it fails for any failure but
    /// that of a malformed packet; it decodes the packets of the track, and no others; and it is
    /// without audio only at the end.
    pub proof fn law_search_is_decided_by_frames(selected: u32, event: InitEvent<S>)
        ensures
            ({
                let action = Self::search_action(selected, event);
                &&& (event matches InitEvent::Packet(id) ==> {
                    &&& id == selected ==> action is Decode
                    &&& id != selected ==> action is ReadPacket
                })
                &&& (event matches InitEvent::Decoded(decoded) ==> {
                    &&& decoded.frames > 0 ==> action == InitAction::Found(decoded)
                    &&& decoded.frames == 0 ==> action is ReadPacket
                })
                &&& (event matches InitEvent::EndOfStream(last) ==> {
                    &&& last.frames > 0 ==> action == InitAction::Found(last)
                    &&& last.frames == 0 ==> action is NoAudio
                })
                &&& (event matches InitEvent::ReadFailed(e) ==> action == InitAction::<S>::Fail(e))
                &&& (event matches InitEvent::DecodeFailed(e) ==> {
                    &&& e is DecodeError ==> action is ReadPacket
                    &&& !(e is DecodeError) ==> action == InitAction::<S>::Fail(e)
                })
            }),
    {
    }

    /// Whatever the state, packets of other tracks, malformed packets and packets without frames
    /// leave the decoder as it is, and another packet is asked for.
    pub proof fn law_packets_without_audio_are_passed_over(self, event: Event<S>)
        requires
            event matches Event::Packet(id) ==> id != self.selected_track_id,
            event matches Event::Decoded(decoded) ==> decoded.frames == 0,
            event is Packet || event is Decoded || event is Malformed,
        ensures
            self.after(event) == (self, Step::<S>::ReadPacket),
    {
    }

    /// Every packet of the selected track is decoded.
    pub proof fn law_packets_of_the_track_are_decoded(self)
        ensures
            self.after(Event::Packet(self.selected_track_id)) == (self, Step::<S>::Decode),
    {
    }

    /// Nothing ends the stream but the end of the input between frames, a seek past the end once the
    /// silence that was due is over, and audio that claims frames and has no samples.
    pub proof fn law_only_the_end_ends_the_stream(self, event: Event<S>)
        requires
            self.spec.channels > 0,
        ensures
            self.after(event).1 is Finished <==> match event {
                Event::Asked => self.seeked_past_end && self.silence_samples_remaining == 0,
                Event::InputEnded => self.samples_in_current_frame as int
                    % self.spec.channels as int == 0,
                Event::Decoded(decoded) => decoded.frames > 0 && decoded.samples@.len() == 0,
                _ => false,
            },
    {
        lemma_mod_bound(self.samples_in_current_frame as int, self.spec.channels as int);
    }

    /// A packet with audio takes the place of the buffer, and its first sample is emitted at once.
    pub proof fn law_decoded_audio_is_played_at_once(self, decoded: Decoded<S>)
        requires
            decoded.frames > 0,
            decoded.samples@.len() > 0,
            decoded.spec.channels > 0,
            self.samples_in_current_frame < usize::MAX,
        ensures
            ({
                let (after, step) = self.after(Event::Decoded(decoded));
                &&& step == Step::Sample(decoded.samples@[0])
                &&& after.buffer == decoded.samples
                &&& after.spec == decoded.spec
                &&& after.current_span_offset == 1
                &&& after.samples_in_current_frame < decoded.spec.channels
                &&& (self.samples_in_current_frame + 1 - after.samples_in_current_frame)
                    % decoded.spec.channels as int == 0
                &&& after.silence_samples_remaining == self.silence_samples_remaining
                &&& after.seeked_past_end == self.seeked_past_end
                &&& after.total_duration == self.total_duration
                &&& after.seek_mode == self.seek_mode
                &&& after.selected_track_id == self.selected_track_id
                &&& after.time_base == self.time_base
                &&& after.equilibrium == self.equilibrium
            }),
    {
        let c = decoded.spec.channels as int;
        lemma_position_is_congruent(self.samples_in_current_frame + 1, c);
    }

    /// Being asked for a sample, the decoder emits the silence that is due, one sample at a time;
    /// then the sample that follows in the buffer; and where there is none it asks for a packet.
    pub proof fn law_asking_moves_on_by_one_sample(self)
        requires
            self.spec.channels > 0,
            self.samples_in_current_frame < usize::MAX,
        ensures
            ({
                let (after, step) = self.after(Event::Asked);
                let offset = self.current_span_offset as int;
                let len = self.buffer@.len();
                // Nothing but the position changes.
                &&& after.buffer == self.buffer
                &&& after.spec == self.spec
                &&& after.seeked_past_end == self.seeked_past_end
                &&& after.total_duration == self.total_duration
                &&& after.seek_mode == self.seek_mode
                &&& after.selected_track_id == self.selected_track_id
                &&& after.time_base == self.time_base
                &&& after.equilibrium == self.equilibrium
                &&& self.silence_samples_remaining > 0 ==> {
                    &&& step == Step::Sample(self.equilibrium)
                    &&& after.silence_samples_remaining + 1 == self.silence_samples_remaining
                    &&& after.current_span_offset == self.current_span_offset
                    &&& after.samples_in_current_frame == self.samples_in_current_frame
                }
                &&& self.silence_samples_remaining == 0 && !self.seeked_past_end && offset < len
                    ==> {
                    &&& step == Step::Sample(self.buffer@[offset])
                    &&& after.current_span_offset == offset + 1
                    &&& after.samples_in_current_frame < self.spec.channels
                    &&& (self.samples_in_current_frame + 1 - after.samples_in_current_frame)
                        % self.spec.channels as int == 0
                    &&& after.silence_samples_remaining == 0
                }
                &&& self.silence_samples_remaining == 0 && !self.seeked_past_end && offset >= len
                    ==> step is ReadPacket && after == self
                &&& self.silence_samples_remaining == 0 && self.seeked_past_end ==> step is Finished
                    && after == self
            }),
    {
        let c = self.spec.channels as int;
        assert(self.buffer.len() == self.buffer@.len());
        lemma_position_is_congruent(self.samples_in_current_frame + 1, c);
    }

    /// When the input ends, a frame that has begun is filled up with silence: the samples that are
    /// there, the one that is emitted at once and those that are still due make up a frame.
    pub proof fn law_ended_input_fills_up_the_frame(self)
        requires
            self.spec.channels > 0,
        ensures
            ({
                let (after, step) = self.after(Event::InputEnded);
                let c = self.spec.channels as int;
                let there = self.samples_in_current_frame as int % c;
                &&& there > 0 ==> {
                    &&& step == Step::Sample(self.equilibrium)
                    &&& there + 1 + after.silence_samples_remaining == c
                    &&& after.samples_in_current_frame == 0
                }
                &&& there == 0 ==> {
                    &&& step is Finished
                    &&& after.silence_samples_remaining == 0
                    &&& after.samples_in_current_frame == self.samples_in_current_frame
                }
                &&& after.buffer == self.buffer
                &&& after.spec == self.spec
                &&& after.current_span_offset == self.current_span_offset
                &&& after.seeked_past_end == self.seeked_past_end
                &&& after.total_duration == self.total_duration
                &&& after.seek_mode == self.seek_mode
                &&& after.selected_track_id == self.selected_track_id
                &&& after.time_base == self.time_base
                &&& after.equilibrium == self.equilibrium
            }),
    {
        lemma_mod_bound(self.samples_in_current_frame as int, self.spec.channels as int);
    }

    /// Where everything can be played, everything can be dealt with.
    pub proof fn law_playable_audio_is_accepted(self, event: Event<S>)
        requires
            1 <= self.spec.channels <= 65_535,
            event matches Event::Decoded(decoded) ==> 1 <= decoded.spec.channels <= 65_535,
        ensures
            self.accepts(event),
    {
    }

    /// The channel that is due is as far from the first as the position is from the last whole frame;
    /// right after a seek it is the first.
    pub proof fn law_active_channel(self)
        requires
            self.spec.channels > 0,
        ensures
            0 <= self.active_channel() < self.spec.channels,
            self.current_span_offset <= self.buffer@.len() ==> (self.current_span_offset
                - self.active_channel()) % self.spec.channels as int == 0,
            self.current_span_offset > self.buffer@.len() ==> self.active_channel() == 0,
    {
        lemma_position_is_congruent(
            self.current_span_offset as int,
            self.spec.channels as int,
        );
    }

    /// The way from where a seek went to its target is the time of all the ticks between them, whole
    /// seconds and what is beyond them. There is none to a target that lies behind.
    pub proof fn law_distance(&self, required_ts: int, actual_ts: int)
        requires
            self.time_base is Some,
            self.time_base->0.numer() > 0,
            self.time_base->0.denom() > 0,
        ensures
            ({
                let base = self.time_base->0;
                let nanos = (required_ts - actual_ts) * base.numer() * 1_000_000_000
                    / base.denom();
                &&& required_ts > actual_ts && nanos / 1_000_000_000 <= i64::MAX ==> self.distance(
                    required_ts,
                    actual_ts,
                ) == nanos
                &&& required_ts > actual_ts && nanos / 1_000_000_000 > i64::MAX ==> self.distance(
                    required_ts,
                    actual_ts,
                ) == 0
                &&& required_ts <= actual_ts ==> self.distance(required_ts, actual_ts) == 0
            }),
    {
        let base = self.time_base->0;
        if required_ts > actual_ts {
            law_tick_duration(base, required_ts - actual_ts);
        } else {
            law_tick_duration(base, 0);
            lemma_mul_basics(base.numer());
            lemma_div_basics(base.denom());
        }
    }

    /// Stretches of the way add up: by way of a tick in between it is as long as at once, but for
    /// the nanosecond that may be lost in cutting each part off.
    pub proof fn law_distances_add_up(&self, a: int, b: int, c: int)
        requires
            self.time_base is Some,
            self.time_base->0.numer() > 0,
            self.time_base->0.denom() > 0,
            a <= b <= c,
            tick_duration(self.time_base->0, c - a) is Some,
        ensures
            self.distance(b, a) + self.distance(c, b) <= self.distance(c, a) <= self.distance(b, a)
                + self.distance(c, b) + 1,
    {
        law_ticks_add_up(self.time_base->0, b - a, c - b);
        assert((b - a) + (c - b) == c - a);
    }

    /// After a seek the decoder is at the start of a frame, with nothing left to emit of what was
    /// there before; only a seek past the end leaves it at the end. A seek that fails changes
    /// nothing, and none changes what the stream is.
    pub proof fn law_seeks_start_afresh(self, outcome: SeekOutcome)
        ensures
            ({
                let after = self.after_seek(outcome);
                &&& outcome is Done || outcome is OutOfRange ==> {
                    &&& after.current_span_offset == usize::MAX
                    &&& after.samples_in_current_frame == 0
                    &&& after.silence_samples_remaining == 0
                    &&& after.seeked_past_end <==> outcome is OutOfRange
                }
                &&& !(outcome is Done || outcome is OutOfRange) ==> after == self
                &&& after.buffer == self.buffer
                &&& after.spec == self.spec
                &&& after.total_duration == self.total_duration
                &&& after.seek_mode == self.seek_mode
                &&& after.selected_track_id == self.selected_track_id
                &&& after.time_base == self.time_base
                &&& after.equilibrium == self.equilibrium
            }),
    {
    }
}

/// A position and its remainder are whole frames apart.
proof fn lemma_position_is_congruent(position: int, channels: int)
    requires
        position >= 0,
        channels > 0,
    ensures
        0 <= position % channels < channels,
        position % channels <= position,
        (position - position % channels) % channels == 0,
{
    lemma_fundamental_div_mod(position, channels);
    lemma_mod_bound(position, channels);
    lemma_mod_multiples_basic(position / channels, channels);
    lemma_mul_is_commutative(position / channels, channels);
    lemma_mod_decreases(position as nat, channels as nat);
}

} // verus!
