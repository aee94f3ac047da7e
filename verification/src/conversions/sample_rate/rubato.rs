//! Sample-by-sample iteration over a resampler that works on chunks.
//!
//! The resampler is fed whole frames of the current span of its input and hands back chunks of
//! output. How much of what it hands back is sound, how much is start-up delay and how much is
//! padding is kept track of here.
use crate::common::{
    law_as_many_frames_as_fit, law_frames_survive_samples, law_samples_round_down_to_frames,
    samples_of, whole_frames,
    ChannelCount, FrameCount, InFrameCount, InSamples, OutFrameCount, SampleRate,
};
use crate::conversions::sample_rate::buffer::{Input, Output};
use crate::math::{
    gcd, law_gcd_divides, law_next_multiple, law_reduced_denominator_is_positive, next_multiple,
    reduced_denominator,
};
use crate::source::{law_samples_available, samples_available, times_asked, Source};
use vstd::arithmetic::div_mod::*;
use vstd::arithmetic::mul::*;
use vstd::math::*;
use vstd::prelude::*;
use vstd::std_specs::convert::FromSpecImpl;

verus! {

/// Failed to create resampler
#[derive(Debug)]
pub struct ResamplerCreationError(pub ::rubato::ResamplerConstructionError);

impl From<::rubato::ResamplerConstructionError> for ResamplerCreationError {
    fn from(source: ::rubato::ResamplerConstructionError) -> (r: ResamplerCreationError) {
        ResamplerCreationError(source)
    }
}

impl FromSpecImpl<::rubato::ResamplerConstructionError> for ResamplerCreationError {
    open spec fn obeys_from_spec() -> bool {
        true
    }

    open spec fn from_spec(source: ::rubato::ResamplerConstructionError) -> ResamplerCreationError {
        ResamplerCreationError(source)
    }
}

/// The inner resampler implementation chosen based on configuration and sample rates.
pub enum ResampleInner<I: Source, A, F> {
    /// Passthrough when source rate is equal to the target rate
    Passthrough {
        source: I,
        input_span_pos: InSamples,
        channels: ChannelCount,
        source_rate: SampleRate,
    },
    /// Polynomial resampling (fast, no anti-aliasing)
    Poly(RubatoResample<I, A>),
    /// Sinc resampling (with anti-aliasing)
    Sinc(RubatoResample<I, A>),
    /// FFT resampling for fixed ratios (synchronous resampling)
    Fft(RubatoResample<I, F>),
}

impl<I: Source, A, F> ResampleInner<I, A, F> {
    /// The source that is resampled.
    pub open spec fn source(&self) -> I {
        match self {
            ResampleInner::Passthrough { source, .. } => *source,
            ResampleInner::Poly(resampler) => resampler.input,
            ResampleInner::Sinc(resampler) => resampler.input,
            ResampleInner::Fft(resampler) => resampler.input,
        }
    }

    /// Get a reference to the inner input source
    pub fn input(&self) -> (r: &I)
        ensures
            *r == self.source(),
    {
        match self {
            ResampleInner::Passthrough { source, .. } => source,
            ResampleInner::Poly(resampler) => &resampler.input,
            ResampleInner::Sinc(resampler) => &resampler.input,
            ResampleInner::Fft(resampler) => &resampler.input,
        }
    }

    /// Extract the inner input source, consuming the resampler
    pub fn into_inner(self) -> (r: I)
        ensures
            r == self.source(),
    {
        match self {
            ResampleInner::Passthrough { source, .. } => source,
            ResampleInner::Poly(resampler) => resampler.input,
            ResampleInner::Sinc(resampler) => resampler.input,
            ResampleInner::Fft(resampler) => resampler.input,
        }
    }
}

/// The input chunk size to create an FFT resampler from `source_rate` to `target_rate` with, where
/// chunks of `chunk_size` are asked for: the next multiple of the denominator of the reduced ratio
/// of the rates.
pub fn fft_input_chunk_size(
    target_rate: SampleRate,
    source_rate: SampleRate,
    chunk_size: usize,
) -> (r: usize)
    requires
        next_multiple(chunk_size as int, reduced_denominator(target_rate@, source_rate@))
            <= usize::MAX,
    ensures
        r == next_multiple(chunk_size as int, reduced_denominator(target_rate@, source_rate@)),
        r > chunk_size,
        r % (reduced_denominator(target_rate@, source_rate@) as usize) == 0,
{
    let target: u32 = target_rate.get();
    let source: u32 = source_rate.get();
    let g: u32 = gcd(target, source);
    proof {
        law_gcd_divides(target as nat, source as nat);
        law_reduced_denominator_is_positive(target as int, source as int);
    }
    let den: usize = (source / g) as usize;
    proof {
        law_next_multiple(chunk_size as int, den as int);
        lemma_mul_basics(den as int);
        lemma_mul_inequality(1, chunk_size as int / den as int + 1, den as int);
        lemma_div_is_ordered_by_denominator(chunk_size as int, 1, den as int);
    }
    ((chunk_size / den) + 1) * den
}

/// What the resampler is to be given.
#[derive(Debug, Clone, Copy, PartialEq, Eq, Structural)]
pub struct Chunk {
    /// The number of frames that were gathered.
    pub frames_in: InFrameCount,
    /// The same, where they are fewer than the resampler asked for.
    pub partial_len: Option<usize>,
}

/// What has to happen for the next sample.
#[derive(Debug)]
pub enum NextSample<S> {
    /// Here it is.
    Sample(S),
    /// There is none: the stream has ended.
    Finished,
    /// The resampler has to process a chunk first.
    Process(Chunk),
}

/// Generic wrapper around resamplers for sample-by-sample iteration.
pub struct RubatoResample<I: Source, R> {
    pub input: I,
    pub resampler: R,
    pub input_buffer: Input<I::Item>,
    pub output: Output<I::Item>,
    pub output_delay_remaining: OutFrameCount,
    pub pos_in_current_span: InSamples,
    /// The number of frames of sound that went into the resampler and have not come out of it
    /// yet, counted at the rate of the output.
    pub in_resampler_state: OutFrameCount,
}

/// The number of output frames to skip for delay compensation: all that precede the one that
/// lines up with the first frame of input.
pub open spec fn frames_to_skip(delay_frames: int) -> int {
    max(delay_frames - 1, 0)
}

/// How many of `frames_out` frames that come out of the resampler are sound, or precede it, where
/// `inside` frames of sound are in the resampler.
pub open spec fn frames_of_sound(inside: int, frames_out: int) -> int {
    min(inside, frames_out)
}

/// How many of `sound` frames are start-up delay, where `delay` frames of it are to come.
pub open spec fn frames_of_delay(delay: int, sound: int) -> int {
    min(delay, sound)
}

impl<I: Source, R> RubatoResample<I, R> {
    /// The buffers are consistent.
    pub open spec fn wf(&self) -> bool {
        &&& self.input_buffer.wf()
        &&& self.output.wf()
        &&& self.output.is_consistent()
    }

    /// The number of channels that the resampler works with.
    pub open spec fn channel_count(&self) -> int {
        self.output.channel_count()@
    }

    /// Calculate the number of output frames to skip for delay compensation.
    pub fn output_delay(delay_frames: usize) -> (r: OutFrameCount)
        ensures
            r.0 == frames_to_skip(delay_frames as int),
    {
        // Skip delay-1 frames to align the first output frame with input position 0.
        OutFrameCount(delay_frames.saturating_sub(1))
    }

    /// A resampler that has read nothing of its input yet, with buffers of the given sizes.
    pub fn new_from(
        input: I,
        resampler: R,
        input_buf_size: InFrameCount,
        output_buf_size: FrameCount,
        channels: ChannelCount,
        source_rate: SampleRate,
        initial_output_delay: OutFrameCount,
        equilibrium: I::Item,
    ) -> (r: RubatoResample<I, R>)
        requires
            samples_of(input_buf_size.0 as int, channels@) <= usize::MAX,
            samples_of(output_buf_size.0 as int, channels@) <= usize::MAX,
        ensures
            r.wf(),
            r.input == input,
            r.resampler == resampler,
            r.input_buffer.pos() == 0,
            r.input_buffer.samples() == Seq::new(
                samples_of(input_buf_size.0 as int, channels@) as nat,
                |i: int| equilibrium,
            ),
            r.output.start() == 0,
            r.output.end() == 0,
            r.output.samples() == Seq::new(
                samples_of(output_buf_size.0 as int, channels@) as nat,
                |i: int| equilibrium,
            ),
            r.output.channel_count() == channels,
            r.output.rate() == source_rate,
            r.output_delay_remaining == initial_output_delay,
            r.pos_in_current_span.0 == 0,
            r.in_resampler_state.0 == 0,
    {
        RubatoResample {
            input,
            resampler,
            input_buffer: Input::new(input_buf_size.samples(channels), equilibrium),
            output: Output::new(source_rate, channels, output_buf_size, equilibrium),
            output_delay_remaining: initial_output_delay,
            pos_in_current_span: InSamples::zero(),
            in_resampler_state: OutFrameCount::zero(),
        }
    }

    /// The length of the current span, in samples.
    pub fn span_length(&self) -> (r: Option<usize>)
        requires
            self.wf(),
        ensures
            r == Some(
                if self.output.unread().len() > 0 {
                    (self.output.end() - self.output.start()) as usize
                } else if self.input.exhausted() {
                    0usize
                } else {
                    self.input.channel_count()@ as usize
                },
            ),
    {
        if !self.output.is_empty() {
            // rest of the output buffer is rest of span
            Some(self.output.current_span_len())
        } else if self.input.is_exhausted() {
            Some(0)
        } else {
            // True span length unknown, return the smallest possible span since that is
            // always correct
            Some(self.input.channels().get() as usize)
        }
    }

    /// Whether the output buffer has unconsumed samples.
    pub fn output_has_samples(&self) -> (r: bool)
        requires
            self.wf(),
        ensures
            r == (self.output.unread().len() > 0),
    {
        !self.output.is_empty()
    }

    /// Forgets the output that has not been read, and expects the resampler to start over with a
    /// delay of `delay_frames`.
    pub fn reset(&mut self, delay_frames: usize)
        requires
            old(self).wf(),
        ensures
            final(self).wf(),
            final(self).output.start() == 0,
            final(self).output.end() == 0,
            final(self).output.samples() == old(self).output.samples(),
            final(self).output.channel_count() == old(self).output.channel_count(),
            final(self).output.rate() == old(self).output.rate(),
            final(self).pos_in_current_span.0 == 0,
            final(self).output_delay_remaining.0 == frames_to_skip(delay_frames as int),
            final(self).input == old(self).input,
            final(self).resampler == old(self).resampler,
            final(self).input_buffer == old(self).input_buffer,
            final(self).in_resampler_state == old(self).in_resampler_state,
    {
        let _ = self.output.reset();
        self.pos_in_current_span = InSamples::zero();
        self.output_delay_remaining = Self::output_delay(delay_frames);
    }

    /// Whether all sound that went into the resampler has come out of it.
    pub fn resampler_empty(&self) -> (r: bool)
        ensures
            r == (self.in_resampler_state.0 == 0),
    {
        self.in_resampler_state.raw() == 0
    }

    /// How many frames are taken from the input at once where the resampler needs `needed`: no
    /// chunk reaches beyond the current span.
    pub open spec fn frames_to_take(&self, needed: int) -> int {
        match self.input.span_len() {
            Some(samples) => min(needed, whole_frames(samples as int, self.channel_count())),
            None => needed,
        }
    }

    /// How many samples are asked of the input where the resampler needs `needed` frames.
    pub open spec fn samples_wanted(&self, needed: int) -> nat {
        samples_of(self.frames_to_take(needed), self.channel_count()) as nat
    }

    /// How many samples the input yields where the resampler needs `needed` frames.
    pub open spec fn samples_taken(&self, needed: int) -> nat {
        samples_available(self.input, self.samples_wanted(needed))
    }

    /// How many whole frames they are.
    pub open spec fn frames_taken(&self, needed: int) -> int {
        whole_frames(self.samples_taken(needed) as int, self.channel_count())
    }

    /// `after` is `self` once the input buffer has been filled for a need of `needed` frames.
    pub open spec fn is_filled(&self, after: Self, needed: int) -> bool {
        &&& after.input_buffer.wf()
        &&& after.input_buffer.samples().len() == self.input_buffer.samples().len()
        &&& after.input_buffer.held() == Seq::new(
            self.samples_taken(needed),
            |i: int| self.input.upcoming(i as nat)->0,
        )
        &&& forall|n: nat| #[trigger]
            after.input.upcoming(n) == self.input.upcoming(
                n + times_asked(self.samples_taken(needed), self.samples_wanted(needed)),
            )
        &&& after.resampler == self.resampler
        &&& after.output_delay_remaining == self.output_delay_remaining
        &&& after.in_resampler_state == self.in_resampler_state
    }

    /// Reads what the resampler needs, `needed` frames, or less where the current span or the
    /// input ends before, into the input buffer. Returns the number of whole frames.
    pub fn fill_input_buffer(&mut self, needed: InFrameCount) -> (r: InFrameCount)
        requires
            old(self).wf(),
            samples_of(needed.0 as int, old(self).channel_count())
                <= old(self).input_buffer.samples().len(),
        ensures
            final(self).wf(),
            r.0 == old(self).frames_taken(needed.0 as int),
            r.0 <= needed.0,
            old(self).is_filled(*final(self), needed.0 as int),
            final(self).output == old(self).output,
            final(self).pos_in_current_span == old(self).pos_in_current_span,
    {
        let channels: ChannelCount = self.output.channels();
        let _: u16 = channels.get();
        let frames_to_take: InFrameCount = match self.input.current_span_len() {
            Some(samples) => {
                let span: InFrameCount = InSamples(samples).frames(channels);
                if span.raw() < needed.raw() {
                    span
                } else {
                    needed
                }
            },
            None => needed,
        };
        proof {
            lemma_mul_inequality(frames_to_take.0 as int, needed.0 as int, channels@);
        }
        let count: usize = frames_to_take.samples(channels).raw();
        self.input_buffer.refill(&mut self.input, count);
        proof {
            lemma_div_is_ordered(
                old(self).samples_taken(needed.0 as int) as int,
                samples_of(needed.0 as int, channels@),
                channels@,
            );
            law_frames_survive_samples(needed.0 as int, channels@);
        }
        self.input_buffer.len().frames(channels)
    }

    /// Gathers the next chunk for a resampler that needs `needed` frames. `None` where all sound
    /// has come out of the resampler and no more goes in.
    pub fn resample_chunk(&mut self, needed: InFrameCount) -> (r: Option<Chunk>)
        requires
            old(self).wf(),
            samples_of(needed.0 as int, old(self).channel_count())
                <= old(self).input_buffer.samples().len(),
            old(self).pos_in_current_span.0 + samples_of(
                needed.0 as int,
                old(self).channel_count(),
            ) <= usize::MAX,
        ensures
            final(self).wf(),
            r is None <==> old(self).input.exhausted() && old(self).in_resampler_state.0 == 0,
            r is None ==> *final(self) == *old(self),
            r is Some ==> {
                &&& r->0.frames_in.0 == old(self).frames_taken(needed.0 as int)
                &&& r->0.partial_len == if r->0.frames_in.0 < needed.0 {
                    Some(r->0.frames_in.0)
                } else {
                    None
                }
                &&& old(self).is_filled(*final(self), needed.0 as int)
                &&& final(self).output == old(self).output
                &&& final(self).pos_in_current_span.0 == old(self).pos_in_current_span.0
                    + samples_of(r->0.frames_in.0 as int, old(self).channel_count())
            },
    {
        if self.input.is_exhausted() && self.resampler_empty() {
            return None;
        }
        let channels: ChannelCount = self.output.channels();
        let frames_in: InFrameCount = self.fill_input_buffer(needed);
        proof {
            lemma_mul_inequality(frames_in.0 as int, needed.0 as int, channels@);
        }
        let _: u16 = channels.get();
        self.pos_in_current_span = self.pos_in_current_span + frames_in.samples(channels);
        let partial_len: Option<usize> = if frames_in.raw() < needed.raw() {
            Some(frames_in.raw())
        } else {
            None
        };
        Some(Chunk { frames_in, partial_len })
    }

    /// `after` is `self` once the next sample of the output, `sample`, has been emitted.
    pub open spec fn has_emitted(&self, after: Self, sample: I::Item) -> bool {
        &&& self.output.unread().len() > 0
        &&& sample == self.output.unread()[0]
        &&& after.output.unread() == self.output.unread().skip(1)
        &&& after.output.start() == self.output.start()
        &&& after.output.end() == self.output.end()
        &&& after.output.samples() == self.output.samples()
        &&& after.output.channel_count() == self.output.channel_count()
        &&& after.output.rate() == self.output.rate()
        &&& after == (RubatoResample { output: after.output, ..*self })
    }

    /// `after` is `self` once `frames_out` frames of output have been accepted, where `expected` more
    /// frames of sound went into the resampler.
    pub open spec fn has_accepted(&self, after: Self, expected: int, frames_out: int) -> bool {
        let sound = frames_of_sound(self.in_resampler_state.0 + expected, frames_out);
        let delay = frames_of_delay(self.output_delay_remaining.0 as int, sound);
        &&& after.output.start() == samples_of(delay, self.channel_count())
        &&& after.output.pos() == after.output.start()
        &&& after.output.end() == samples_of(sound, self.channel_count())
        &&& after.output.samples() == self.output.samples()
        &&& after.output.channel_count() == self.output.channel_count()
        &&& after.output.rate() == self.output.rate()
        &&& after.output_delay_remaining.0 == self.output_delay_remaining.0 - delay
        &&& after.in_resampler_state.0 == self.in_resampler_state.0 + expected - (sound - delay)
        &&& after == (RubatoResample {
            output: after.output,
            output_delay_remaining: after.output_delay_remaining,
            in_resampler_state: after.in_resampler_state,
            ..*self
        })
    }

    /// Accepts the `frames_out` frames that the resampler has written to the output buffer, where
    /// the chunk that it was given amounts to `expected` frames of output. `None` where the input
    /// has ended and nothing came out.
    pub fn accept_chunk(&mut self, expected: OutFrameCount, frames_out: OutFrameCount) -> (r:
        Option<()>)
        requires
            old(self).wf(),
            old(self).in_resampler_state.0 + expected.0 <= usize::MAX,
            samples_of(frames_out.0 as int, old(self).channel_count())
                <= old(self).output.samples().len(),
        ensures
            r is None <==> old(self).input.exhausted() && frames_out.0 == 0,
            final(self).wf(),
            r is None ==> {
                &&& final(self).in_resampler_state.0 == old(self).in_resampler_state.0 + expected.0
                &&& *final(self) == (RubatoResample {
                    in_resampler_state: final(self).in_resampler_state,
                    ..*old(self)
                })
            },
            r is Some ==> old(self).has_accepted(
                *final(self),
                expected.0 as int,
                frames_out.0 as int,
            ),
    {
        self.in_resampler_state = self.in_resampler_state + expected;
        if self.input.is_exhausted() && frames_out.raw() == 0 {
            return None;
        }
        let channels: ChannelCount = self.output.channels();
        let _: u16 = channels.get();
        let sound: OutFrameCount = if self.in_resampler_state.raw() < frames_out.raw() {
            self.in_resampler_state
        } else {
            frames_out
        };
        let delay_in_output: OutFrameCount = if self.output_delay_remaining.raw() < sound.raw() {
            self.output_delay_remaining
        } else {
            sound
        };
        self.output_delay_remaining = self.output_delay_remaining - delay_in_output;
        proof {
            lemma_mul_inequality(sound.0 as int, frames_out.0 as int, channels@);
            lemma_mul_inequality(delay_in_output.0 as int, sound.0 as int, channels@);
            lemma_mul_is_distributive_sub_other_way(
                channels@,
                sound.0 as int,
                delay_in_output.0 as int,
            );
            law_frames_survive_samples(sound.0 - delay_in_output.0, channels@);
        }
        self.output.set_end(sound);
        self.output.set_start(delay_in_output);
        self.in_resampler_state = self.in_resampler_state - self.output.len().frames(channels);
        Some(())
    }

    /// The next sample, or what has to happen for it, where the resampler needs `needed` frames
    /// for its next chunk.
    pub fn next_sample(&mut self, needed: InFrameCount) -> (r: NextSample<I::Item>)
        requires
            old(self).wf(),
            samples_of(needed.0 as int, old(self).channel_count())
                <= old(self).input_buffer.samples().len(),
            old(self).pos_in_current_span.0 + samples_of(
                needed.0 as int,
                old(self).channel_count(),
            ) <= usize::MAX,
        ensures
            final(self).wf(),
            r is Sample <==> old(self).output.unread().len() > 0,
            r matches NextSample::Sample(sample) ==> old(self).has_emitted(*final(self), sample),
            r is Finished <==> old(self).output.unread().len() == 0 && old(self).input.exhausted()
                && old(self).in_resampler_state.0 == 0,
            r is Finished ==> *final(self) == *old(self),
            r matches NextSample::Process(chunk) ==> {
                &&& chunk.frames_in.0 == old(self).frames_taken(needed.0 as int)
                &&& chunk.partial_len == if chunk.frames_in.0 < needed.0 {
                    Some(chunk.frames_in.0)
                } else {
                    None
                }
                &&& old(self).is_filled(*final(self), needed.0 as int)
                &&& final(self).output == old(self).output
                &&& final(self).pos_in_current_span.0 == old(self).pos_in_current_span.0
                    + samples_of(chunk.frames_in.0 as int, old(self).channel_count())
            },
    {
        match self.output.next() {
            Some(sample) => NextSample::Sample(sample),
            None => match self.resample_chunk(needed) {
                Some(chunk) => NextSample::Process(chunk),
                None => NextSample::Finished,
            },
        }
    }
}

/// Chunks are consecutive parts of the input: a chunk loses, repeats and reorders nothing, and what
/// follows it is the rest of the input. Where it is not as long as it could be, the input has ended,
/// and only what is no whole frame is left out.
pub proof fn law_chunks_are_consecutive<I: Source, R>(
    before: RubatoResample<I, R>,
    after: RubatoResample<I, R>,
    needed: int,
)
    requires
        needed >= 0,
        before.wf(),
        before.is_filled(after, needed),
    ensures
        forall|i: nat|
            #![trigger before.input.upcoming(i)]
            i < before.samples_taken(needed) ==> before.input.upcoming(i) == Some(
                after.input_buffer.held()[i as int],
            ),
        before.samples_taken(needed) == before.samples_wanted(needed) ==> {
            &&& samples_of(before.frames_taken(needed), before.channel_count())
                == before.samples_taken(needed)
            &&& forall|n: nat| #[trigger]
                after.input.upcoming(n) == before.input.upcoming(
                    n + before.samples_taken(needed),
                )
        },
        before.samples_taken(needed) < before.samples_wanted(needed) ==> {
            &&& before.input.upcoming(before.samples_taken(needed)) is None
            &&& before.samples_taken(needed) - samples_of(
                before.frames_taken(needed),
                before.channel_count(),
            ) < before.channel_count()
        },
{
    let c = before.channel_count();
    let wanted = before.samples_wanted(needed);
    let taken = before.samples_taken(needed);
    law_samples_available(before.input, wanted);
    assert forall|i: nat| #![trigger before.input.upcoming(i)] i < taken implies before.input.upcoming(
        i,
    ) == Some(after.input_buffer.held()[i as int]) by {
        assert(after.input_buffer.held()[i as int] == before.input.upcoming(i)->0);
    }
    if let Some(samples) = before.input.span_len() {
        lemma_div_pos_is_pos(samples as int, c);
    }
    lemma_mul_nonnegative(before.frames_to_take(needed), c);
    law_frames_survive_samples(before.frames_to_take(needed), c);
    law_samples_round_down_to_frames(taken as int, c);
}

/// What is in the resampler, the start-up delay that is to come and the number of frames that were
/// handed on, after chunks that each put frames in and took frames out.
pub open spec fn after_chunks(inside: int, delay: int, chunks: Seq<(int, int)>) -> (int, int, int)
    decreases chunks.len(),
{
    if chunks.len() == 0 {
        (inside, delay, 0)
    } else {
        let (before, delay, handed_on) = after_chunks(inside, delay, chunks.drop_last());
        let (expected, frames_out) = chunks.last();
        let sound = frames_of_sound(before + expected, frames_out);
        let skipped = frames_of_delay(delay, sound);
        (
            before + expected - (sound - skipped),
            delay - skipped,
            handed_on + (sound - skipped),
        )
    }
}

/// The frames of sound that went in.
pub open spec fn frames_put_in(chunks: Seq<(int, int)>) -> int
    decreases chunks.len(),
{
    if chunks.len() == 0 {
        0
    } else {
        frames_put_in(chunks.drop_last()) + chunks.last().0
    }
}

/// Every frame of sound that goes into the resampler is either handed on or still inside: once
/// nothing is inside, as many were handed on as went in, however long the start-up delay was.
pub proof fn law_sound_is_neither_lost_nor_added(inside: int, delay: int, chunks: Seq<(int, int)>)
    requires
        inside >= 0,
        delay >= 0,
        forall|i: int|
            #![trigger chunks[i]]
            0 <= i < chunks.len() ==> chunks[i].0 >= 0 && chunks[i].1 >= 0,
    ensures
        after_chunks(inside, delay, chunks).0 + after_chunks(inside, delay, chunks).2 == inside
            + frames_put_in(chunks),
        after_chunks(inside, delay, chunks).0 >= 0,
        0 <= after_chunks(inside, delay, chunks).1 <= delay,
        after_chunks(inside, delay, chunks).2 >= 0,
    decreases chunks.len(),
{
    if chunks.len() > 0 {
        assert forall|i: int|
            #![trigger chunks.drop_last()[i]]
            0 <= i < chunks.len() - 1 implies chunks.drop_last()[i].0 >= 0
            && chunks.drop_last()[i].1 >= 0 by {
            assert(chunks.drop_last()[i] == chunks[i]);
        }
        law_sound_is_neither_lost_nor_added(inside, delay, chunks.drop_last());
        assert(chunks.last() == chunks[chunks.len() - 1]);
    }
}

/// All frames of the delay but the last are skipped, and there is nothing to skip without a delay.
pub proof fn law_frames_to_skip(delay_frames: int)
    requires
        delay_frames >= 0,
    ensures
        frames_to_skip(0) == 0,
        frames_to_skip(delay_frames + 1) == delay_frames,
{
}

/// Accepting a chunk hands on everything that the resampler wrote, as long as there is that much
/// sound inside, and otherwise all the sound; only what is left of the delay is taken off its start.
/// What is handed on leaves the resampler.
pub proof fn law_accepting_hands_on_the_sound<I: Source, R>(
    before: RubatoResample<I, R>,
    after: RubatoResample<I, R>,
    expected: nat,
    frames_out: nat,
)
    requires
        before.wf(),
        after.wf(),
        before.has_accepted(after, expected as int, frames_out as int),
    ensures
        ({
            let c = before.output.channel_count()@;
            let inside = before.in_resampler_state.0 + expected;
            let delay = before.output_delay_remaining.0 as int;
            let (start, end) = (after.output.pos(), after.output.end());
            &&& inside >= frames_out ==> end == frames_out * c
            &&& inside <= frames_out ==> end == inside * c
            &&& delay * c <= end ==> start == delay * c
            &&& delay * c >= end ==> start == end
            &&& after.output.start() == start
            &&& after.output_delay_remaining.0 * c == delay * c - start
            &&& after.in_resampler_state.0 * c == inside * c - (end - start)
            &&& after.output.unread() == before.output.samples().subrange(start, end)
        }),
        after.output.samples() == before.output.samples(),
        after.output.channel_count() == before.output.channel_count(),
        after.output.rate() == before.output.rate(),
        after.input == before.input,
        after.resampler == before.resampler,
        after.input_buffer == before.input_buffer,
        after.pos_in_current_span == before.pos_in_current_span,
{
    let c = before.output.channel_count()@;
    let inside = before.in_resampler_state.0 + expected;
    let delay = before.output_delay_remaining.0 as int;
    let sound = frames_of_sound(inside, frames_out as int);
    let skipped = frames_of_delay(delay, sound);
    if delay <= sound {
        lemma_mul_inequality(delay, sound, c);
    } else {
        lemma_mul_inequality(sound, delay, c);
        lemma_mul_strict_inequality(sound, delay, c);
    }
    lemma_mul_is_distributive_sub_other_way(c, delay, skipped);
    lemma_mul_is_distributive_sub_other_way(c, sound, skipped);
    lemma_mul_is_distributive_sub_other_way(c, inside, sound - skipped);
}

/// Emitting a sample hands out the one that is read next and moves on by it; nothing else changes.
pub proof fn law_emitting_moves_on<I: Source, R>(
    before: RubatoResample<I, R>,
    after: RubatoResample<I, R>,
    sample: I::Item,
)
    requires
        before.wf(),
        after.wf(),
        before.has_emitted(after, sample),
    ensures
        before.output.pos() < before.output.end(),
        sample == before.output.samples()[before.output.pos()],
        after.output.pos() == before.output.pos() + 1,
        after.output.start() == before.output.start(),
        after.output.end() == before.output.end(),
        after.output.samples() == before.output.samples(),
        after.output.channel_count() == before.output.channel_count(),
        after.output.rate() == before.output.rate(),
        after.input == before.input,
        after.resampler == before.resampler,
        after.input_buffer == before.input_buffer,
        after.output_delay_remaining == before.output_delay_remaining,
        after.pos_in_current_span == before.pos_in_current_span,
        after.in_resampler_state == before.in_resampler_state,
{
    assert(after.output.unread().len() == before.output.unread().len() - 1);
}

/// Filling gathers the next samples of the input, one after the other, and as many as are needed
/// unless the input has no more or the span has no other whole frame. Where it stops short of both,
/// the input has answered that there is no more.
pub proof fn law_filling_gathers_what_is_needed<I: Source, R>(
    before: RubatoResample<I, R>,
    after: RubatoResample<I, R>,
    needed: nat,
)
    requires
        before.wf(),
        before.is_filled(after, needed as int),
    ensures
        ({
            let c = before.output.channel_count()@;
            let held = after.input_buffer.held();
            let frames = before.frames_taken(needed as int);
            let input = before.input;
            // Never more than is needed or than the span holds.
            &&& held.len() <= needed * c
            &&& input.span_len() matches Some(samples) ==> held.len() <= samples
            // The next samples, in order.
            &&& forall|i: int|
                0 <= i < held.len() ==> input.upcoming(i as nat) is Some && #[trigger] held[i]
                    == input.upcoming(i as nat)->0
            // Never less, unless there is no more.
            &&& held.len() < needed * c && input.span_len() is None ==> input.upcoming(
                held.len(),
            ) is None
            &&& input.span_len() matches Some(samples) ==> held.len() < needed * c && held.len() + c
                <= samples ==> input.upcoming(held.len()) is None
            // The input goes on behind them.
            &&& input.upcoming(held.len()) is Some ==> forall|n: nat| #[trigger]
                after.input.upcoming(n) == input.upcoming(n + held.len())
            &&& held.len() == needed * c ==> forall|n: nat| #[trigger]
                after.input.upcoming(n) == input.upcoming(n + held.len())
            // Whole frames are counted.
            &&& frames >= 0
            &&& frames * c <= held.len() < (frames + 1) * c
        }),
        after.input_buffer.samples().len() == before.input_buffer.samples().len(),
        after.resampler == before.resampler,
        after.output_delay_remaining == before.output_delay_remaining,
        after.in_resampler_state == before.in_resampler_state,
{
    let c = before.output.channel_count()@;
    let wanted = before.samples_wanted(needed as int);
    let taken = before.samples_taken(needed as int);
    law_samples_available(before.input, wanted);
    law_as_many_frames_as_fit(taken as int, c);
    let frames = before.frames_to_take(needed as int);
    if let Some(samples) = before.input.span_len() {
        law_as_many_frames_as_fit(samples as int, c);
        lemma_mul_is_distributive_add_other_way(c, whole_frames(samples as int, c), 1);
        lemma_mul_basics(c);
        lemma_mul_inequality(frames, whole_frames(samples as int, c), c);
    }
    lemma_mul_inequality(frames, needed as int, c);
    lemma_mul_nonnegative(frames, c);
    assert forall|i: int| 0 <= i < taken implies before.input.upcoming(i as nat) is Some
        && #[trigger] after.input_buffer.held()[i] == before.input.upcoming(i as nat)->0 by {
        assert(before.input.upcoming(i as nat) is Some);
    }
}

} // verus!
