//! Chunk-wise resampling of a source.
//!
//! The resampling itself is done by a resampler that is fed chunks of input and hands back chunks
//! of output. What surrounds it is here: gathering input frames, flushing the resampler with
//! silence at the end, dropping the samples of its start-up delay and of its tail.
use crate::common::{
    law_frames_survive_samples, law_samples_round_down_to_frames, samples_of, ChannelCount, SampleRate,
};
use crate::external::reduced_ratio;
use crate::math::{law_reduced_denominator_is_positive, next_multiple, reduced_denominator};
use crate::source::resample::buffer::Buffer;
use crate::source::{
    law_samples_available, move_to_start, overwrite_start, read_into, repeated, samples_available, times_asked, Source,
};
use vstd::arithmetic::div_mod::*;
use vstd::arithmetic::mul::*;
use vstd::math::*;
use vstd::prelude::*;

verus! {

/// What has to happen for the next sample.
pub enum NextSample<S> {
    /// Here it is.
    Sample(S),
    /// There is none: the stream has ended.
    Finished,
    /// The resampler has to process a chunk first: the `frames` frames at the start of the input
    /// buffer.
    Process {
        frames: usize,
        /// The number of frames, where they are fewer than the resampler asked for.
        partial_len: Option<usize>,
    },
}

/// The inner resampler implementation chosen based on configuration and sample rates.
pub enum ResampleInner<I: Source, A, F> {
    /// Passthrough when source rate is equal to the target rate
    Passthrough {
        source: I,
        input_span_pos: usize,
        channels: ChannelCount,
        source_rate: SampleRate,
    },
    /// Polynomial resampling (fast, no anti-aliasing)
    Poly(RubatoResample<I, A>),
    /// Sinc resampling (with anti-aliasing)
    Sinc(RubatoResample<I, A>),
    /// FFT resampling for fixed ratios (synchronous resampling)
    Fft(RubatoResample<I, F>),
}

impl<I: Source, A, F> ResampleInner<I, A, F> {
    /// The inner input source, whichever way it is resampled.
    pub open spec fn source(self) -> I {
        match self {
            ResampleInner::Passthrough { source, .. } => source,
            ResampleInner::Poly(resampler) => resampler.input,
            ResampleInner::Sinc(resampler) => resampler.input,
            ResampleInner::Fft(resampler) => resampler.input,
        }
    }

    /// Get a reference to the inner input source
    pub fn input(&self) -> (r: &I)
        ensures
            *r == self.source(),
    {
        match self {
            ResampleInner::Passthrough { source, .. } => source,
            ResampleInner::Poly(resampler) => &resampler.input,
            ResampleInner::Sinc(resampler) => &resampler.input,
            ResampleInner::Fft(resampler) => &resampler.input,
        }
    }

    /// Extract the inner input source, consuming the resampler
    pub fn into_inner(self) -> (r: I)
        ensures
            r == self.source(),
    {
        match self {
            ResampleInner::Passthrough { source, .. } => source,
            ResampleInner::Poly(resampler) => resampler.input,
            ResampleInner::Sinc(resampler) => resampler.input,
            ResampleInner::Fft(resampler) => resampler.input,
        }
    }
}

/// The chunk size of an FFT resampler from `source_rate` to `target_rate` that is asked for chunks
/// of `chunk_size` frames: the next multiple of the source rate's share in the reduced ratio of the
/// two rates.
pub fn fft_input_chunk_size(
    target_rate: SampleRate,
    source_rate: SampleRate,
    chunk_size: usize,
) -> (r: usize)
    requires
        next_multiple(chunk_size as int, reduced_denominator(target_rate@, source_rate@))
            <= usize::MAX,
    ensures
        r == next_multiple(chunk_size as int, reduced_denominator(target_rate@, source_rate@)),
{
    // Calculate the GCD-reduced ratio
    let (_num, den): (u32, u32) = reduced_ratio(target_rate.get(), source_rate.get());
    proof {
        law_reduced_denominator_is_positive(target_rate@, source_rate@);
        lemma_mul_ordering(chunk_size as int / den as int + 1, den as int);
    }

    // Determine input chunk size - must be multiple of denominator
    ((chunk_size / den as usize) + 1) * den as usize
}

/// How many frames of output are skipped for a resampler that delays its output by `delay_frames`:
/// one less, so that the first frame left is that of input position 0.
pub open spec fn delay_to_skip(delay_frames: int) -> int {
    max(delay_frames - 1, 0)
}

/// Generic wrapper around a resampler for sample-by-sample iteration.
pub struct RubatoResample<I: Source, R> {
    pub input: I,
    pub resampler: R,
    pub input_buffer: Vec<I::Item>,
    pub input_frame_count: usize,
    pub output_buffer: Buffer<I::Item>,
    /// The following are cached at construction for parameter-change detection.
    pub channels: ChannelCount,
    pub source_rate: SampleRate,
    pub input_samples_consumed: usize,
    pub input_exhausted: bool,
    pub total_input_frames: usize,
    pub total_output_samples: usize,
    pub expected_output_samples: usize,
    /// The number of real (non-flush) frames currently in the input buffer.
    pub real_frames_in_buffer: usize,
    pub output_delay_remaining: usize,
    /// The sample that stands for silence.
    pub equilibrium: I::Item,
}

impl<I: Source, R> RubatoResample<I, R> {
    /// The input frames fit in the input buffer, and no more of them are real than there are. Whole
    /// frames have been consumed. The valid output samples fit in the output buffer.
    pub open spec fn wf(&self) -> bool {
        &&& self.channels@ > 0
        &&& samples_of(self.input_frame_count as int, self.channels@) <= self.input_buffer@.len()
        &&& self.real_frames_in_buffer <= self.input_frame_count
        &&& self.input_samples_consumed as int % self.channels@ == 0
        &&& self.output_buffer.wf()
        &&& self.output_buffer.valid() <= self.output_buffer.data().len()
    }

    /// Nothing differs but the input and what has been read from it.
    pub open spec fn differs_in_input_only(&self, other: &RubatoResample<I, R>) -> bool {
        &&& self.resampler == other.resampler
        &&& self.output_buffer == other.output_buffer
        &&& self.channels == other.channels
        &&& self.source_rate == other.source_rate
        &&& self.input_samples_consumed == other.input_samples_consumed
        &&& self.total_input_frames == other.total_input_frames
        &&& self.total_output_samples == other.total_output_samples
        &&& self.expected_output_samples == other.expected_output_samples
        &&& self.output_delay_remaining == other.output_delay_remaining
        &&& self.equilibrium == other.equilibrium
    }

    /// How many samples are asked of the input to have `needed` frames.
    pub open spec fn samples_wanted(&self, needed: int) -> nat {
        if self.input_exhausted || self.input_frame_count >= needed {
            0
        } else {
            samples_of(needed - self.input_frame_count, self.channels@) as nat
        }
    }

    /// How many samples the input gives when `needed` frames are wanted.
    pub open spec fn samples_taken(&self, needed: int) -> nat {
        samples_available(self.input, self.samples_wanted(needed))
    }

    /// How many whole frames those samples make.
    pub open spec fn frames_taken(&self, needed: int) -> int {
        self.samples_taken(needed) as int / self.channels@
    }

    /// The input buffer with the samples that the input gives written behind the frames that are
    /// already there.
    pub open spec fn buffer_with_taken(&self, needed: int) -> Seq<I::Item> {
        let start = samples_of(self.input_frame_count as int, self.channels@);
        Seq::new(
            self.input_buffer@.len(),
            |i: int|
                if start <= i < start + self.samples_taken(needed) {
                    self.input.upcoming((i - start) as nat)->0
                } else {
                    self.input_buffer@[i]
                },
        )
    }

    /// `after` is `self` once its input buffer has been filled up to `needed` frames: with what
    /// the input gives, or, where that leaves no frame at all, with silence.
    pub open spec fn is_filled_to(&self, after: &RubatoResample<I, R>, needed: int) -> bool {
        let wanted = self.samples_wanted(needed);
        let taken = self.samples_taken(needed);
        let frames = self.input_frame_count + self.frames_taken(needed);
        let asked = times_asked(taken, wanted);
        let buffer = self.buffer_with_taken(needed);
        &&& after.differs_in_input_only(self)
        &&& after.input_exhausted == (self.input_exhausted || taken < wanted)
        &&& forall|n: nat| #[trigger] after.input.upcoming(n) == self.input.upcoming(n + asked)
        &&& after.real_frames_in_buffer == self.real_frames_in_buffer + self.frames_taken(needed)
        &&& if frames > 0 {
            &&& after.input_frame_count == frames
            &&& after.input_buffer@ == buffer
        } else {
            &&& after.input_frame_count == needed
            &&& after.input_buffer@ == Seq::new(
                buffer.len(),
                |i: int|
                    if i < samples_of(needed, self.channels@) {
                        self.equilibrium
                    } else {
                        buffer[i]
                    },
            )
        }
    }

    /// Calculate the number of output samples to skip for delay compensation, given the delay of
    /// the resampler in frames.
    pub fn calculate_delay_compensation(delay_frames: usize, channels: ChannelCount) -> (r: usize)
        requires
            samples_of(delay_to_skip(delay_frames as int), channels@) <= usize::MAX,
        ensures
            r == samples_of(delay_to_skip(delay_frames as int), channels@),
    {
        // Skip delay-1 frames to align the first output frame with input position 0.
        let delay_to_skip: usize = delay_frames.saturating_sub(1);
        delay_to_skip * channels.get() as usize
    }

    /// Whether the output buffer has unconsumed samples.
    pub fn output_has_samples(&self) -> (r: bool)
        requires
            self.wf(),
        ensures
            r == (self.output_buffer.unread().len() > 0),
    {
        !self.output_buffer.is_empty()
    }

    /// Number of valid samples in the current output chunk.
    pub fn output_len(&self) -> (r: usize)
        ensures
            r == self.output_buffer.valid(),
    {
        self.output_buffer.len()
    }

    /// Number of output samples remaining to be read.
    pub fn output_remaining(&self) -> (r: usize)
        requires
            self.wf(),
        ensures
            r == self.output_buffer.unread().len(),
    {
        self.output_buffer.remaining()
    }

    /// Start over, with a resampler that has been reset and has the given delay, in frames.
    pub fn reset(&mut self, delay_frames: usize)
        requires
            old(self).wf(),
            samples_of(delay_to_skip(delay_frames as int), old(self).channels@) <= usize::MAX,
        ensures
            final(self).wf(),
            final(self).starts_over(delay_frames as int),
            final(self).input == old(self).input,
            final(self).resampler == old(self).resampler,
            final(self).input_buffer@ == old(self).input_buffer@,
            final(self).output_buffer.data() == old(self).output_buffer.data(),
            final(self).channels == old(self).channels,
            final(self).source_rate == old(self).source_rate,
            final(self).equilibrium == old(self).equilibrium,
    {
        proof {
            lemma_mul_basics(self.channels@);
            lemma_small_mod(0, self.channels@ as nat);
        }
        self.output_buffer.reset(0);
        self.input_frame_count = 0;
        self.input_samples_consumed = 0;
        self.input_exhausted = false;
        self.total_input_frames = 0;
        self.total_output_samples = 0;
        self.expected_output_samples = 0;
        self.real_frames_in_buffer = 0;
        self.output_delay_remaining = Self::calculate_delay_compensation(
            delay_frames,
            self.channels,
        );
    }

    /// Nothing has been read or emitted yet, and the delay of the resampler, in frames, is still
    /// to be skipped.
    pub open spec fn starts_over(&self, delay_frames: int) -> bool {
        &&& self.input_frame_count == 0
        &&& self.output_buffer.cursor() == 0
        &&& self.output_buffer.valid() == 0
        &&& self.input_samples_consumed == 0
        &&& !self.input_exhausted
        &&& self.total_input_frames == 0
        &&& self.total_output_samples == 0
        &&& self.expected_output_samples == 0
        &&& self.real_frames_in_buffer == 0
        &&& self.output_delay_remaining == samples_of(delay_to_skip(delay_frames), self.channels@)
    }

    /// A resampling of `input` by `resampler`, which takes no more than `input_frames_max` frames
    /// in one chunk, gives no more than `output_frames_max`, and delays its output by
    /// `delay_frames` frames.
    pub fn new_from(
        input: I,
        resampler: R,
        input_frames_max: usize,
        output_frames_max: usize,
        delay_frames: usize,
        equilibrium: I::Item,
    ) -> (r: RubatoResample<I, R>)
        requires
            samples_of(input_frames_max as int, input.channel_count()@) <= usize::MAX,
            samples_of(output_frames_max as int, input.channel_count()@) <= usize::MAX,
            samples_of(delay_to_skip(delay_frames as int), input.channel_count()@) <= usize::MAX,
        ensures
            r.wf(),
            r.starts_over(delay_frames as int),
            r.input == input,
            r.resampler == resampler,
            r.input_buffer@ == Seq::new(
                samples_of(input_frames_max as int, input.channel_count()@) as nat,
                |i: int| equilibrium,
            ),
            r.output_buffer.data() == Seq::new(
                samples_of(output_frames_max as int, input.channel_count()@) as nat,
                |i: int| equilibrium,
            ),
            r.channels == input.channel_count(),
            r.source_rate == input.rate(),
            r.equilibrium == equilibrium,
    {
        let channels: ChannelCount = input.channels();
        let source_rate: SampleRate = input.sample_rate();
        let num_channels: usize = channels.get() as usize;
        proof {
            lemma_mul_basics(channels@);
            lemma_small_mod(0, channels@ as nat);
        }
        RubatoResample {
            input,
            resampler,
            input_buffer: repeated(equilibrium, input_frames_max * num_channels),
            input_frame_count: 0,
            output_buffer: Buffer::new(output_frames_max * num_channels, equilibrium),
            channels,
            source_rate,
            input_samples_consumed: 0,
            input_exhausted: false,
            total_input_frames: 0,
            total_output_samples: 0,
            expected_output_samples: 0,
            real_frames_in_buffer: 0,
            output_delay_remaining: Self::calculate_delay_compensation(delay_frames, channels),
            equilibrium,
        }
    }

    /// Fill the input buffer up to `needed` frames. Once the input has run out of whole frames, and
    /// no frame is left in the buffer, the buffer is filled with silence instead, to flush the
    /// tail out of the resampler.
    pub fn fill_input_buffer(&mut self, needed: usize)
        requires
            old(self).wf(),
            samples_of(needed as int, old(self).channels@) <= old(self).input_buffer@.len(),
        ensures
            final(self).wf(),
            old(self).is_filled_to(final(self), needed as int),
    {
        let num_channels: usize = self.channels.get() as usize;
        let ghost pre = *self;
        let ghost c = num_channels as int;
        assert(self.input_buffer.len() == self.input_buffer@.len());
        if self.input_frame_count < needed && !self.input_exhausted {
            proof {
                lemma_mul_is_distributive_sub_other_way(
                    c,
                    needed as int,
                    pre.input_frame_count as int,
                );
            }
            let start: usize = self.input_frame_count * num_channels;
            let wanted: usize = needed * num_channels - start;
            let taken: usize = read_into(&mut self.input, &mut self.input_buffer, start, wanted);
            let frames: usize = taken / num_channels;
            proof {
                lemma_div_is_ordered(taken as int, wanted as int, c);
                lemma_div_multiples_vanish(needed - pre.input_frame_count, c);
                lemma_mul_is_commutative(needed - pre.input_frame_count, c);
                lemma_mul_inequality(pre.input_frame_count + frames, needed as int, c);
            }
            self.input_exhausted = taken < wanted;
            self.input_frame_count = self.input_frame_count + frames;
            self.real_frames_in_buffer = self.real_frames_in_buffer + frames;
        }
        assert(self.input_buffer@ == pre.buffer_with_taken(needed as int));

        // Zero-pad if we ran out of input to flush the filter tail
        if self.input_frame_count == 0 {
            overwrite_start(&mut self.input_buffer, needed * num_channels, self.equilibrium);
            self.input_frame_count = needed;
        }
    }

    /// There is nothing left to emit, to process or to flush.
    pub open spec fn is_finished(&self) -> bool {
        &&& self.output_buffer.unread().len() == 0
        &&& self.input_exhausted
        &&& self.input_frame_count == 0
        &&& self.total_output_samples >= self.expected_output_samples
    }

    /// How many samples will have been emitted once the output buffer is drained.
    pub open spec fn output_total(&self) -> int {
        self.total_output_samples + self.output_buffer.unread().len()
    }

    /// `after` is `self` once the next sample of the output buffer, `sample`, has been emitted.
    pub open spec fn has_emitted(&self, after: &RubatoResample<I, R>, sample: I::Item) -> bool {
        &&& self.output_buffer.unread().len() > 0
        &&& sample == self.output_buffer.unread().first()
        &&& after.output_buffer.unread() == self.output_buffer.unread().drop_first()
        &&& after.output_buffer.data() == self.output_buffer.data()
        &&& after.output_buffer.valid() == self.output_buffer.valid()
        &&& after.total_output_samples == self.total_output_samples + 1
        &&& *after == (RubatoResample {
            output_buffer: after.output_buffer,
            total_output_samples: after.total_output_samples,
            ..*self
        })
    }

    /// Move on to the next sample. `needed_input` is the number of frames that the resampler needs
    /// for its next chunk.
    pub fn next_sample(&mut self, needed_input: usize) -> (r: NextSample<I::Item>)
        requires
            old(self).wf(),
            samples_of(needed_input as int, old(self).channels@) <= old(self).input_buffer@.len(),
            old(self).total_output_samples < usize::MAX,
        ensures
            final(self).wf(),
            match r {
                NextSample::Sample(s) => {
                    &&& old(self).has_emitted(final(self), s)
                    &&& final(self).output_total() == old(self).output_total()
                },
                NextSample::Finished => {
                    &&& old(self).is_finished()
                    &&& *final(self) == *old(self)
                },
                NextSample::Process { frames, partial_len } => {
                    &&& old(self).output_buffer.unread().len() == 0
                    &&& !old(self).is_finished()
                    &&& old(self).is_filled_to(final(self), needed_input as int)
                    &&& frames == final(self).input_frame_count
                    &&& frames < needed_input ==> final(self).input_exhausted
                    &&& partial_len == if frames < needed_input {
                        Some(frames)
                    } else {
                        None
                    }
                },
            },
    {
        // If we have buffered output, return it
        if !self.output_buffer.is_empty() {
            let sample: I::Item = self.output_buffer.read();
            self.total_output_samples = self.total_output_samples + 1;
            return NextSample::Sample(sample);
        }
        // Need more input - first check if we're completely done

        if self.input_exhausted && self.input_frame_count == 0 && self.total_output_samples
            >= self.expected_output_samples {
            return NextSample::Finished;
        }
        // Fill input buffer, flushing with zeros if input is exhausted

        self.fill_input_buffer(needed_input);

        proof {
            law_filling_reaches_what_is_needed(*old(self), *self, needed_input as nat);
        }
        // We can process with fewer frames than needed using partial_len when the input is
        // exhausted.
        let frames: usize = self.input_frame_count;
        let partial_len: Option<usize> = if frames < needed_input {
            Some(frames)
        } else {
            None
        };
        NextSample::Process { frames, partial_len }
    }

    /// The frames that are taken out of the input buffer where the resampler reports that it has
    /// consumed `frames_in`. It may report more than it was given, as it counts the silence that it
    /// pads a partial chunk with.
    pub open spec fn frames_consumed(&self, frames_in: int) -> int {
        min(frames_in, self.input_frame_count as int)
    }

    /// Those of them that came from the input.
    pub open spec fn real_frames_consumed(&self, frames_in: int) -> int {
        min(self.frames_consumed(frames_in), self.real_frames_in_buffer as int)
    }

    /// `after` is `self` once the `frames_in` frames that the resampler reports consumed have been
    /// taken out of the input buffer, and the frames behind them have moved up.
    pub open spec fn has_consumed(&self, after: &RubatoResample<I, R>, frames_in: int) -> bool {
        let consumed = self.frames_consumed(frames_in);
        let genuine = self.real_frames_consumed(frames_in);
        let shift = samples_of(consumed, self.channels@);
        let left = samples_of(self.input_frame_count - consumed, self.channels@);
        &&& after.input_frame_count == self.input_frame_count - consumed
        &&& after.real_frames_in_buffer == self.real_frames_in_buffer - genuine
        &&& after.total_input_frames == self.total_input_frames + genuine
        &&& after.input_samples_consumed == self.input_samples_consumed + shift
        &&& after.input_buffer@ == Seq::new(
            self.input_buffer@.len(),
            |i: int|
                if i < left {
                    self.input_buffer@[i + shift]
                } else {
                    self.input_buffer@[i]
                },
        )
        &&& *after == (RubatoResample {
            input_buffer: after.input_buffer,
            input_frame_count: after.input_frame_count,
            input_samples_consumed: after.input_samples_consumed,
            total_input_frames: after.total_input_frames,
            real_frames_in_buffer: after.real_frames_in_buffer,
            ..*self
        })
    }

    /// Take a chunk that the resampler has processed out of the input buffer: it has consumed
    /// `frames_in` frames and produced `frames_out`. Returns the number of real frames that have
    /// been consumed so far, or `None` where the stream has ended: nothing was produced and there
    /// is no more input.
    pub fn consume_input(&mut self, frames_in: usize, frames_out: usize) -> (r: Option<usize>)
        requires
            old(self).wf(),
            old(self).input_samples_consumed + samples_of(
                old(self).frames_consumed(frames_in as int),
                old(self).channels@,
            ) <= usize::MAX,
            old(self).total_input_frames + old(self).real_frames_consumed(frames_in as int)
                <= usize::MAX,
        ensures
            final(self).wf(),
            r is None <==> frames_out == 0 && old(self).input_exhausted,
            r is None ==> *final(self) == *old(self),
            r matches Some(total) ==> {
                &&& old(self).has_consumed(final(self), frames_in as int)
                &&& total == final(self).total_input_frames
            },
    {
        // If no output was produced and input is exhausted, we're done
        if frames_out == 0 && self.input_exhausted {
            return None;
        }
        let num_channels: usize = self.channels.get() as usize;
        let ghost c = num_channels as int;
        assert(self.input_buffer.len() == self.input_buffer@.len());

        // When using partial_len, the resampler may report consuming more frames than we
        // actually provided (it counts the zero-padded frames). Clamp to actual.
        let consumed: usize = if frames_in <= self.input_frame_count {
            frames_in
        } else {
            self.input_frame_count
        };
        proof {
            lemma_mul_inequality(consumed as int, self.input_frame_count as int, c);
            lemma_mul_is_distributive_sub_other_way(
                c,
                self.input_frame_count as int,
                consumed as int,
            );
        }
        let shift: usize = consumed * num_channels;
        proof {
            lemma_mod_multiples_vanish(consumed as int, self.input_samples_consumed as int, c);
            lemma_mul_is_commutative(consumed as int, c);
        }
        self.input_samples_consumed = self.input_samples_consumed + shift;

        // Only count real (non-flush) frames toward expected output
        let real_consumed: usize = if consumed <= self.real_frames_in_buffer {
            consumed
        } else {
            self.real_frames_in_buffer
        };
        self.real_frames_in_buffer = self.real_frames_in_buffer - real_consumed;
        self.total_input_frames = self.total_input_frames + real_consumed;

        // Shift remaining input samples to beginning of buffer
        let left: usize = self.input_frame_count * num_channels - shift;
        move_to_start(&mut self.input_buffer, shift, left);
        self.input_frame_count = self.input_frame_count - consumed;
        Some(self.total_input_frames)
    }

    /// How many of the `frames_out` frames of a chunk are skipped, in samples, because they are
    /// part of the delay of the resampler.
    pub open spec fn delay_skipped(&self, frames_out: int) -> int {
        min(self.output_delay_remaining as int, samples_of(frames_out, self.channels@))
    }

    /// How many more samples are due where `expected_frames` frames are expected in all.
    pub open spec fn samples_due(&self, expected_frames: int) -> int {
        max(samples_of(expected_frames, self.channels@) - self.total_output_samples, 0)
    }

    /// Whether the tail of a chunk is cut off: there is no more input, and some output is due for
    /// what there was.
    pub open spec fn is_capped(&self, expected_frames: int) -> bool {
        self.input_exhausted && samples_of(expected_frames, self.channels@) > 0
    }

    /// `after` is `self` once `frames_out` frames of output have been made available, without those
    /// that are part of the delay and those that are not due.
    pub open spec fn has_accepted(
        &self,
        after: &RubatoResample<I, R>,
        frames_out: int,
        expected_frames: int,
    ) -> bool {
        let filled = samples_of(frames_out, self.channels@);
        let skipped = self.delay_skipped(frames_out);
        &&& after.expected_output_samples == samples_of(expected_frames, self.channels@)
        &&& after.output_delay_remaining == self.output_delay_remaining - skipped
        &&& after.output_buffer.data() == self.output_buffer.data()
        &&& after.output_buffer.cursor() == skipped
        &&& after.output_buffer.valid() == if self.is_capped(expected_frames) {
            min(filled, skipped + self.samples_due(expected_frames))
        } else {
            filled
        }
        &&& *after == (RubatoResample {
            output_buffer: after.output_buffer,
            expected_output_samples: after.expected_output_samples,
            output_delay_remaining: after.output_delay_remaining,
            ..*self
        })
    }

    /// Make the `frames_out` frames that the resampler has written into the output buffer
    /// available, given that `expected_frames` frames of output are due for all the real input so
    /// far.
    pub fn accept_output(&mut self, frames_out: usize, expected_frames: usize)
        requires
            old(self).wf(),
            samples_of(frames_out as int, old(self).channels@) <= old(
                self,
            ).output_buffer.data().len(),
            samples_of(expected_frames as int, old(self).channels@) <= usize::MAX,
            old(self).is_capped(expected_frames as int) ==> old(self).delay_skipped(
                frames_out as int,
            ) + old(self).samples_due(expected_frames as int) <= usize::MAX,
        ensures
            final(self).wf(),
            old(self).has_accepted(final(self), frames_out as int, expected_frames as int),
    {
        let num_channels: usize = self.channels.get() as usize;
        proof {
            self.output_buffer.lemma_capacity_is_bounded();
        }
        let filled: usize = frames_out * num_channels;
        self.expected_output_samples = expected_frames * num_channels;
        self.output_buffer.reset(filled);

        // Skip warmup delay samples
        if self.output_delay_remaining > 0 {
            let samples_to_skip: usize = if self.output_delay_remaining <= self.output_buffer.len() {
                self.output_delay_remaining
            } else {
                self.output_buffer.len()
            };
            self.output_buffer.skip(samples_to_skip);
            self.output_delay_remaining = self.output_delay_remaining - samples_to_skip;
        }
        // Cap output to cut off filter artifacts once input is exhausted

        if self.input_exhausted && self.expected_output_samples > 0 {
            let remaining: usize = self.expected_output_samples.saturating_sub(
                self.total_output_samples,
            );
            self.output_buffer.cap_to_remaining(remaining);
        }
    }
}

impl<I: Source, R> RubatoResample<I, R> {
    /// The samples that are still to go through the resampler: those in the input buffer, then
    /// those of the input.
    pub open spec fn input_stream(&self, n: nat) -> Option<I::Item> {
        let held = samples_of(self.input_frame_count as int, self.channels@);
        if n < held {
            Some(self.input_buffer@[n as int])
        } else {
            self.input.upcoming((n - held) as nat)
        }
    }
}

/// Filling the input buffer loses, repeats and reorders nothing: the frames in the buffer are the
/// next ones of the stream, and, while the input has not ended, the rest of the stream follows.
pub proof fn law_filling_keeps_the_stream<I: Source, R>(
    before: RubatoResample<I, R>,
    after: RubatoResample<I, R>,
    needed: nat,
)
    requires
        before.wf(),
        before.is_filled_to(&after, needed as int),
        samples_of(needed as int, before.channels@) <= before.input_buffer@.len(),
        before.input_frame_count + before.frames_taken(needed as int) > 0,
    ensures
        forall|n: nat|
            n < samples_of(after.input_frame_count as int, after.channels@)
                ==> #[trigger] after.input_stream(n) == before.input_stream(n),
        !after.input_exhausted ==> forall|n: nat| #[trigger]
            after.input_stream(n) == before.input_stream(n),
{
    let c = before.channels@;
    let wanted = before.samples_wanted(needed as int);
    let taken = before.samples_taken(needed as int);
    let frames = before.frames_taken(needed as int);
    law_samples_available(before.input, wanted);
    law_samples_round_down_to_frames(taken as int, c);
    lemma_mul_is_distributive_add_other_way(c, before.input_frame_count as int, frames);
    if !before.input_exhausted && before.input_frame_count < needed {
        lemma_mul_is_distributive_sub_other_way(c, needed as int, before.input_frame_count as int);
    }
    if !after.input_exhausted {
        law_frames_survive_samples(needed - before.input_frame_count, c);
    }
}

/// Taking frames out of the input buffer moves the stream on by just those frames.
pub proof fn law_consuming_advances_the_stream<I: Source, R>(
    before: RubatoResample<I, R>,
    after: RubatoResample<I, R>,
    frames_in: nat,
)
    requires
        before.wf(),
        before.has_consumed(&after, frames_in as int),
    ensures
        forall|n: nat| #[trigger]
            after.input_stream(n) == before.input_stream(
                (n + samples_of(before.frames_consumed(frames_in as int), before.channels@)) as nat,
            ),
{
    let c = before.channels@;
    let consumed = before.frames_consumed(frames_in as int);
    lemma_mul_is_distributive_sub_other_way(c, before.input_frame_count as int, consumed);
    lemma_mul_nonnegative(consumed, c);
    lemma_mul_inequality(consumed, before.input_frame_count as int, c);
}

/// Once the input has ended, a chunk never brings the number of emitted samples above what is due
/// for the input, nor, where more than that has been emitted already, above what has been.
pub proof fn law_output_is_capped<I: Source, R>(
    before: RubatoResample<I, R>,
    after: RubatoResample<I, R>,
    frames_out: int,
    expected_frames: int,
)
    requires
        before.wf(),
        after.wf(),
        before.has_accepted(&after, frames_out, expected_frames),
        before.is_capped(expected_frames),
    ensures
        after.output_total() <= max(
            samples_of(expected_frames, before.channels@),
            before.total_output_samples as int,
        ),
{
}

impl<I: Source, R> RubatoResample<I, R> {
    /// How many frames have been read from the input, those that wait in the buffer included.
    pub open spec fn real_frames_read(&self) -> int {
        self.total_input_frames + self.real_frames_in_buffer
    }
}

/// Every frame of the input counts once towards the output that is due: when it is read, it is
/// counted as waiting, and when it is consumed, as processed. Silence that flushes the resampler
/// never counts.
pub proof fn law_input_frames_are_counted_once<I: Source, R>(
    before: RubatoResample<I, R>,
    filled: RubatoResample<I, R>,
    consumed: RubatoResample<I, R>,
    needed: int,
    frames_in: int,
)
    requires
        before.is_filled_to(&filled, needed),
        filled.has_consumed(&consumed, frames_in),
    ensures
        filled.real_frames_read() == before.real_frames_read() + before.frames_taken(needed),
        consumed.real_frames_read() == filled.real_frames_read(),
{
}

/// The stream finishes only when all that was read from the input has been processed and all the
/// output that is due for it has been emitted.
pub proof fn law_nothing_is_left_at_the_end<I: Source, R>(last: RubatoResample<I, R>)
    requires
        last.wf(),
        last.is_finished(),
    ensures
        last.input_exhausted,
        last.total_input_frames == last.real_frames_read(),
        last.total_output_samples >= last.expected_output_samples,
{
}

/// All frames of the delay but the last are skipped, and there is nothing to skip without a delay.
pub proof fn law_delay_to_skip(delay_frames: int)
    requires
        delay_frames >= 0,
    ensures
        delay_to_skip(0) == 0,
        delay_to_skip(delay_frames + 1) == delay_frames,
{
}

/// Filling for `needed` frames leaves that many in the buffer, unless the input has ended: a chunk is
/// shorter only then. The input is known to have ended where one of the missing samples was asked
/// for and there was none.
pub proof fn law_filling_reaches_what_is_needed<I: Source, R>(
    before: RubatoResample<I, R>,
    after: RubatoResample<I, R>,
    needed: nat,
)
    requires
        before.wf(),
        before.is_filled_to(&after, needed as int),
    ensures
        after.input_frame_count < needed ==> after.input_exhausted,
        !after.input_exhausted && needed >= before.input_frame_count ==> after.input_frame_count
            == needed,
        !after.input_exhausted && needed <= before.input_frame_count ==> after.input_frame_count
            == before.input_frame_count,
        before.input_exhausted ==> after.input_exhausted,
        !before.input_exhausted ==> (!after.input_exhausted <==> forall|n: nat|
            n < (needed - before.input_frame_count) * before.channels@
                ==> #[trigger] before.input.upcoming(n) is Some),
{
    let c = before.channels@;
    let missing = needed - before.input_frame_count;
    let wanted = before.samples_wanted(needed as int);
    let taken = before.samples_taken(needed as int);
    law_samples_available(before.input, wanted);
    law_frames_survive_samples(missing, c);
    lemma_div_pos_is_pos(taken as int, c);
    lemma_div_basics(c);
    if !before.input_exhausted {
        if missing > 0 {
            lemma_mul_nonnegative(missing, c);
            assert(wanted == missing * c);
        } else {
            assert(missing * c <= 0) by (nonlinear_arith)
                requires
                    missing <= 0,
                    c > 0,
            ;
        }
        if taken < wanted {
            assert(before.input.upcoming(taken) is None);
        }
    }
}

/// An input that has no sample after the first `len` of those that are missing gives the whole frames
/// among those, and is then known to have ended. What it gives stands behind the frames that were
/// there.
pub proof fn law_filling_takes_whole_frames<I: Source, R>(
    before: RubatoResample<I, R>,
    after: RubatoResample<I, R>,
    needed: nat,
    len: nat,
)
    requires
        before.wf(),
        before.is_filled_to(&after, needed as int),
        (needed * before.channels@) <= before.input_buffer@.len(),
        !before.input_exhausted,
        len < (needed - before.input_frame_count) * before.channels@,
        forall|n: nat| n < len ==> #[trigger] before.input.upcoming(n) is Some,
        before.input.upcoming(len) is None,
    ensures
        after.input_exhausted,
        ({
            let frames = after.real_frames_in_buffer - before.real_frames_in_buffer;
            &&& frames >= 0
            &&& frames * before.channels@ <= len < (frames + 1) * before.channels@
            &&& before.input_frame_count + frames > 0 ==> after.input_frame_count
                == before.input_frame_count + frames
            &&& before.input_frame_count + frames > 0 ==> forall|i: int|
                0 <= i < len ==> #[trigger] after.input_buffer@[before.input_frame_count
                    * before.channels@ + i] == before.input.upcoming(i as nat)->0
            &&& before.input_frame_count + frames == 0 ==> {
                &&& after.input_frame_count == needed
                &&& forall|i: int|
                    0 <= i < needed * before.channels@ ==> #[trigger] after.input_buffer@[i]
                        == before.equilibrium
            }
        }),
        forall|n: nat| #[trigger]
            after.input.upcoming(n) == before.input.upcoming(n + len + 1),
{
    let c = before.channels@;
    let missing = needed - before.input_frame_count;
    let wanted = before.samples_wanted(needed as int);
    assert(missing > 0) by (nonlinear_arith)
        requires
            0 <= len < missing * c,
            c > 0,
    ;
    assert(wanted == missing * c);
    crate::source::lemma_samples_available_is(before.input, wanted, len);
    crate::common::law_as_many_frames_as_fit(len as int, c);
    lemma_mul_is_distributive_sub_other_way(c, needed as int, before.input_frame_count as int);
    lemma_mul_nonnegative(before.input_frame_count as int, c);
    lemma_div_pos_is_pos(len as int, c);
}

/// Filling leaves the frames that were there in their places, puts the next samples of the input
/// behind them, and touches nothing but the input and its buffer. A source that is known to have
/// ended is not asked again. Where there is no frame at all, the resampler is fed silence.
pub proof fn law_filling_keeps_what_is_there<I: Source, R>(
    before: RubatoResample<I, R>,
    after: RubatoResample<I, R>,
    needed: nat,
)
    requires
        before.wf(),
        before.is_filled_to(&after, needed as int),
        (needed * before.channels@) <= before.input_buffer@.len(),
    ensures
        after.input_buffer@.len() == before.input_buffer@.len(),
        before.input_frame_count > 0 ==> forall|i: int|
            0 <= i < before.input_frame_count * before.channels@
                ==> #[trigger] after.input_buffer@[i] == before.input_buffer@[i],
        !after.input_exhausted && needed > before.input_frame_count ==> {
            &&& after.real_frames_in_buffer - before.real_frames_in_buffer == needed
                - before.input_frame_count
            &&& forall|i: int|
                0 <= i < (needed - before.input_frame_count) * before.channels@
                    ==> #[trigger] after.input_buffer@[before.input_frame_count * before.channels@
                    + i] == before.input.upcoming(i as nat)->0
            &&& forall|n: nat| #[trigger]
                after.input.upcoming(n) == before.input.upcoming(
                    (n + (needed - before.input_frame_count) * before.channels@) as nat,
                )
        },
        before.input_exhausted || needed <= before.input_frame_count ==> {
            &&& after.real_frames_in_buffer == before.real_frames_in_buffer
            &&& after.input_exhausted == before.input_exhausted
            &&& forall|n: nat| #[trigger] after.input.upcoming(n) == before.input.upcoming(n)
        },
        before.input_exhausted && before.input_frame_count == 0 ==> {
            &&& after.input_frame_count == needed
            &&& forall|i: int|
                0 <= i < needed * before.channels@ ==> #[trigger] after.input_buffer@[i]
                    == before.equilibrium
        },
        before.input_exhausted && before.input_frame_count > 0 ==> after.input_frame_count
            == before.input_frame_count,
        after.resampler == before.resampler,
        after.output_buffer == before.output_buffer,
        after.channels == before.channels,
        after.source_rate == before.source_rate,
        after.input_samples_consumed == before.input_samples_consumed,
        after.total_input_frames == before.total_input_frames,
        after.total_output_samples == before.total_output_samples,
        after.expected_output_samples == before.expected_output_samples,
        after.output_delay_remaining == before.output_delay_remaining,
        after.equilibrium == before.equilibrium,
{
    let c = before.channels@;
    let missing = needed - before.input_frame_count;
    let wanted = before.samples_wanted(needed as int);
    let taken = before.samples_taken(needed as int);
    law_samples_available(before.input, wanted);
    law_frames_survive_samples(missing, c);
    lemma_div_pos_is_pos(taken as int, c);
    lemma_div_basics(c);
    lemma_mul_is_distributive_sub_other_way(c, needed as int, before.input_frame_count as int);
    lemma_mul_nonnegative(before.input_frame_count as int, c);
    lemma_mul_basics(c);
    if missing > 0 {
        lemma_mul_nonnegative(missing, c);
    }
}

/// A resampling that starts over has seen and done nothing, and has all frames of the delay but the
/// last to skip.
pub proof fn law_starting_over<I: Source, R>(state: RubatoResample<I, R>, delay_frames: int)
    requires
        state.starts_over(delay_frames),
        delay_frames >= 0,
    ensures
        delay_frames > 0 ==> state.output_delay_remaining + state.channels@ == delay_frames
            * state.channels@,
        delay_frames == 0 ==> state.output_delay_remaining == 0,
        state.input_frame_count == 0,
        state.real_frames_in_buffer == 0,
        state.output_buffer.cursor() == 0,
        state.output_buffer.valid() == 0,
        state.input_samples_consumed == 0,
        state.total_input_frames == 0,
        state.total_output_samples == 0,
        state.expected_output_samples == 0,
        !state.input_exhausted,
{
    lemma_mul_is_distributive_sub_other_way(state.channels@, delay_frames, 1);
    lemma_mul_basics(state.channels@);
}

/// The stream goes on as long as there is anything left to do: output to emit, input to come, frames
/// to process, or output that is due.
pub proof fn law_stream_ends_when_all_is_done<I: Source, R>(state: RubatoResample<I, R>)
    requires
        state.wf(),
    ensures
        state.output_buffer.cursor() < state.output_buffer.valid() ==> !state.is_finished(),
        !state.input_exhausted ==> !state.is_finished(),
        state.input_frame_count > 0 ==> !state.is_finished(),
        state.total_output_samples < state.expected_output_samples ==> !state.is_finished(),
        state.output_buffer.cursor() == state.output_buffer.valid() && state.input_exhausted
            && state.input_frame_count == 0 && state.total_output_samples
            >= state.expected_output_samples ==> state.is_finished(),
{
}

/// Emitting a sample hands out the one at the cursor and moves on by it; nothing else changes but
/// the count.
pub proof fn law_emitting_moves_on<I: Source, R>(
    before: RubatoResample<I, R>,
    after: RubatoResample<I, R>,
    sample: I::Item,
)
    requires
        before.wf(),
        after.wf(),
        before.has_emitted(&after, sample),
    ensures
        before.output_buffer.cursor() < before.output_buffer.valid(),
        sample == before.output_buffer.data()[before.output_buffer.cursor()],
        after.output_buffer.cursor() == before.output_buffer.cursor() + 1,
        after.output_buffer.valid() == before.output_buffer.valid(),
        after.output_buffer.data() == before.output_buffer.data(),
        after.total_output_samples == before.total_output_samples + 1,
        after.input == before.input,
        after.resampler == before.resampler,
        after.input_buffer == before.input_buffer,
        after.input_frame_count == before.input_frame_count,
        after.real_frames_in_buffer == before.real_frames_in_buffer,
        after.input_exhausted == before.input_exhausted,
        after.total_input_frames == before.total_input_frames,
        after.input_samples_consumed == before.input_samples_consumed,
        after.expected_output_samples == before.expected_output_samples,
        after.output_delay_remaining == before.output_delay_remaining,
        after.channels == before.channels,
        after.source_rate == before.source_rate,
        after.equilibrium == before.equilibrium,
{
    assert(after.output_buffer.unread().len() == before.output_buffer.unread().len() - 1);
}

/// Consuming takes out the frames that the resampler reports, as far as there are that many, moves
/// the others up and keeps the accounts: the frames of the input come first, and those that were
/// consumed are counted.
pub proof fn law_consuming_keeps_accounts<I: Source, R>(
    before: RubatoResample<I, R>,
    after: RubatoResample<I, R>,
    frames_in: nat,
)
    requires
        before.wf(),
        before.has_consumed(&after, frames_in as int),
    ensures
        ({
            let consumed = before.input_frame_count - after.input_frame_count;
            let genuine = after.total_input_frames - before.total_input_frames;
            &&& frames_in <= before.input_frame_count ==> consumed == frames_in
            &&& frames_in >= before.input_frame_count ==> consumed == before.input_frame_count
            &&& before.real_frames_in_buffer - after.real_frames_in_buffer == genuine
            &&& consumed <= before.real_frames_in_buffer ==> genuine == consumed
            &&& consumed >= before.real_frames_in_buffer ==> genuine
                == before.real_frames_in_buffer
            &&& after.input_samples_consumed == before.input_samples_consumed + consumed
                * before.channels@
            &&& forall|i: int|
                0 <= i < after.input_frame_count * before.channels@
                    ==> #[trigger] after.input_buffer@[i] == before.input_buffer@[i + consumed
                    * before.channels@]
        }),
        after.input_buffer@.len() == before.input_buffer@.len(),
        after.input == before.input,
        after.resampler == before.resampler,
        after.output_buffer == before.output_buffer,
        after.input_exhausted == before.input_exhausted,
        after.total_output_samples == before.total_output_samples,
        after.expected_output_samples == before.expected_output_samples,
        after.output_delay_remaining == before.output_delay_remaining,
        after.channels == before.channels,
        after.source_rate == before.source_rate,
        after.equilibrium == before.equilibrium,
{
    let c = before.channels@;
    let consumed = before.frames_consumed(frames_in as int);
    lemma_mul_inequality(before.input_frame_count - consumed, before.input_frame_count as int, c);
}

/// Accepting output makes everything available that the resampler wrote, in its place, but for what
/// is left of the delay at the start and, once the input has ended and some output is due for it,
/// for what goes beyond what is due at the end.
pub proof fn law_accepting_makes_output_available<I: Source, R>(
    before: RubatoResample<I, R>,
    after: RubatoResample<I, R>,
    frames_out: nat,
    expected_frames: nat,
)
    requires
        before.wf(),
        before.has_accepted(&after, frames_out as int, expected_frames as int),
        frames_out * before.channels@ <= before.output_buffer.data().len(),
    ensures
        ({
            let filled = frames_out * before.channels@;
            let due = expected_frames * before.channels@ - before.total_output_samples;
            let start = after.output_buffer.cursor();
            let end = after.output_buffer.valid();
            &&& before.output_delay_remaining <= filled ==> start == before.output_delay_remaining
            &&& before.output_delay_remaining >= filled ==> start == filled
            &&& after.output_delay_remaining == before.output_delay_remaining - start
            &&& !before.input_exhausted || expected_frames == 0 ==> end == filled
            &&& before.input_exhausted && expected_frames > 0 ==> {
                &&& start + due >= filled ==> end == filled
                &&& 0 <= due && start + due <= filled ==> end == start + due
                &&& due <= 0 ==> end == start
            }
            &&& after.expected_output_samples == expected_frames * before.channels@
        }),
        after.output_buffer.data() == before.output_buffer.data(),
        after.input == before.input,
        after.resampler == before.resampler,
        after.input_buffer == before.input_buffer,
        after.input_frame_count == before.input_frame_count,
        after.real_frames_in_buffer == before.real_frames_in_buffer,
        after.input_exhausted == before.input_exhausted,
        after.total_input_frames == before.total_input_frames,
        after.input_samples_consumed == before.input_samples_consumed,
        after.total_output_samples == before.total_output_samples,
        after.channels == before.channels,
        after.source_rate == before.source_rate,
        after.equilibrium == before.equilibrium,
{
    let c = before.channels@;
    lemma_mul_nonnegative(frames_out as int, c);
    lemma_mul_basics(c);
    if expected_frames > 0 {
        lemma_mul_strictly_positive(expected_frames as int, c);
    }
}

} // verus!
