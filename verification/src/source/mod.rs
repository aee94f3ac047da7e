//! Sources of sound.
use crate::common::{ChannelCount, SampleRate};
use crate::time::Duration;
use vstd::arithmetic::div_mod::*;
use vstd::arithmetic::mul::*;
use vstd::math::*;
use vstd::prelude::*;

pub mod agc;
pub mod automatic_gain_control;
pub mod resample;
pub mod span;

verus! {

/// A source of samples: audio that is asked for one sample at a time.
///
/// The samples of a frame follow each other, one for each channel. A source is cut into spans;
/// its channel count and its sample rate stay the same within one.
///
/// A source that is itself verified says what its samples are by the specification functions; they
/// have a default for the others.
pub trait Source: Sized {
    /// What one sample is.
    type Item: Copy;

    /// Why a seek fails.
    type SeekError;

    /// What the source will have answered to `next` once it has been asked `n` more times and is
    /// asked again.
    closed spec fn upcoming(&self, n: nat) -> Option<Self::Item> {
        arbitrary()
    }

    /// The length of the current span, in samples, where it is known.
    closed spec fn span_len(&self) -> Option<usize> {
        arbitrary()
    }

    /// The number of channels in the current span.
    closed spec fn channel_count(&self) -> ChannelCount {
        arbitrary()
    }

    /// The sample rate of the current span.
    closed spec fn rate(&self) -> SampleRate {
        arbitrary()
    }

    /// The time that the whole source takes, where it is known.
    closed spec fn duration(&self) -> Option<Duration> {
        arbitrary()
    }

    /// Whether the source has come to its end.
    closed spec fn exhausted(&self) -> bool {
        arbitrary()
    }

    /// What becomes of the source through a seek to `pos`, and how the seek comes out.
    closed spec fn seeked(&self, pos: Duration) -> (Self, Result<(), Self::SeekError>) {
        arbitrary()
    }

    /// The next sample, or `None` where there is none.
    fn next(&mut self) -> (r: Option<Self::Item>)
        ensures
            r == old(self).upcoming(0),
            forall|n: nat| #[trigger] final(self).upcoming(n) == old(self).upcoming(n + 1),
    ;

    /// The length of the current span, in samples, where it is known.
    fn current_span_len(&self) -> (r: Option<usize>)
        ensures
            r == self.span_len(),
    ;

    /// The number of channels in the current span.
    fn channels(&self) -> (r: ChannelCount)
        ensures
            r == self.channel_count(),
    ;

    /// The sample rate of the current span.
    fn sample_rate(&self) -> (r: SampleRate)
        ensures
            r == self.rate(),
    ;

    /// The time that the whole source takes, where it is known.
    fn total_duration(&self) -> (r: Option<Duration>)
        ensures
            r == self.duration(),
    ;

    /// Whether the source has come to its end.
    fn is_exhausted(&self) -> (r: bool)
        ensures
            r == self.exhausted(),
    ;

    /// Seeks to `pos`.
    fn try_seek(&mut self, pos: Duration) -> (r: Result<(), Self::SeekError>)
        ensures
            (*final(self), r) == old(self).seeked(pos),
    ;
}

/// How many samples `input` yields before it first answers `None`, counting no further than
/// `limit`.
pub open spec fn samples_available<I: Source>(input: I, limit: nat) -> nat
    decreases limit,
{
    if limit == 0 {
        0
    } else {
        let before = samples_available(input, (limit - 1) as nat);
        if before == limit - 1 && input.upcoming(before) is Some {
            limit
        } else {
            before
        }
    }
}

/// How often a source is asked to get `taken` samples out of it where `wanted` are wanted: it says
/// that there are no more by one more answer.
pub open spec fn times_asked(taken: nat, wanted: nat) -> nat {
    if taken < wanted {
        taken + 1
    } else {
        taken
    }
}

/// The samples that are available are those before the first `None`.
pub proof fn law_samples_available<I: Source>(input: I, limit: nat)
    ensures
        samples_available(input, limit) <= limit,
        forall|i: nat|
            i < samples_available(input, limit) ==> #[trigger] input.upcoming(i) is Some,
        samples_available(input, limit) < limit ==> input.upcoming(
            samples_available(input, limit),
        ) is None,
    decreases limit,
{
    if limit > 0 {
        law_samples_available(input, (limit - 1) as nat);
    }
}

/// Only one number is that of the samples before the first `None`.
pub proof fn lemma_samples_available_is<I: Source>(input: I, limit: nat, n: nat)
    requires
        n <= limit,
        forall|i: nat| i < n ==> #[trigger] input.upcoming(i) is Some,
        n < limit ==> input.upcoming(n) is None,
    ensures
        samples_available(input, limit) == n,
{
    law_samples_available(input, limit);
    let m = samples_available(input, limit);
    if m < n {
        assert(input.upcoming(m) is Some);
    }
    if n < m {
        assert(input.upcoming(n) is Some);
    }
}

/// Reads samples of `input` into `buffer`, from index `start` on: `count` of them, or as many as
/// come before the first `None`. Returns how many.
pub fn read_into<I: Source>(
    input: &mut I,
    buffer: &mut Vec<I::Item>,
    start: usize,
    count: usize,
) -> (r: usize)
    requires
        start + count <= old(buffer)@.len(),
    ensures
        r == samples_available(*old(input), count as nat),
        r <= count,
        forall|n: nat| #[trigger]
            final(input).upcoming(n) == old(input).upcoming(
                n + times_asked(r as nat, count as nat),
            ),
        final(buffer)@ == Seq::new(
            old(buffer)@.len(),
            |i: int|
                if start <= i < start + r {
                    old(input).upcoming((i - start) as nat)->0
                } else {
                    old(buffer)@[i]
                },
        ),
{
    let ghost source = *input;
    let ghost samples = buffer@;
    let mut taken: usize = 0;
    assert(buffer.len() == samples.len());
    while taken < count
        invariant
            source == *old(input),
            samples == old(buffer)@,
            taken <= count,
            start + count <= samples.len() <= usize::MAX,
            buffer@.len() == samples.len(),
            forall|n: nat| #[trigger] input.upcoming(n) == source.upcoming(n + taken as nat),
            forall|i: nat| i < taken ==> #[trigger] source.upcoming(i) is Some,
            forall|i: int|
                0 <= i < samples.len() ==> #[trigger] buffer@[i] == if start <= i < start + taken {
                    source.upcoming((i - start) as nat)->0
                } else {
                    samples[i]
                },
        decreases count - taken,
    {
        match input.next() {
            Some(sample) => {
                buffer.set(start + taken, sample);
                taken = taken + 1;
            },
            None => {
                proof {
                    lemma_samples_available_is(source, count as nat, taken as nat);
                }
                return taken;
            },
        }
    }
    proof {
        lemma_samples_available_is(source, count as nat, taken as nat);
    }
    taken
}

/// `count` times `value`.
pub fn repeated<S: Copy>(value: S, count: usize) -> (r: Vec<S>)
    ensures
        r@ == Seq::new(count as nat, |i: int| value),
{
    let mut r: Vec<S> = Vec::with_capacity(count);
    let mut i: usize = 0;
    while i < count
        invariant
            i <= count,
            r@ == Seq::new(i as nat, |j: int| value),
        decreases count - i,
    {
        r.push(value);
        i = i + 1;
    }
    r
}

/// Overwrites the first `count` samples of `buffer` with `value`.
pub fn overwrite_start<S: Copy>(buffer: &mut Vec<S>, count: usize, value: S)
    requires
        count <= old(buffer)@.len(),
    ensures
        final(buffer)@ == Seq::new(
            old(buffer)@.len(),
            |i: int|
                if i < count {
                    value
                } else {
                    old(buffer)@[i]
                },
        ),
{
    let ghost samples = buffer@;
    let mut i: usize = 0;
    while i < count
        invariant
            samples == old(buffer)@,
            i <= count <= samples.len(),
            buffer@ == Seq::new(
                samples.len(),
                |j: int|
                    if j < i {
                        value
                    } else {
                        samples[j]
                    },
            ),
        decreases count - i,
    {
        buffer.set(i, value);
        i = i + 1;
    }
}

/// Moves the `count` samples of `buffer` from index `from` on to its start. The samples behind them
/// stay as they are.
pub fn move_to_start<S: Copy>(buffer: &mut Vec<S>, from: usize, count: usize)
    requires
        from + count <= old(buffer)@.len(),
    ensures
        final(buffer)@ == Seq::new(
            old(buffer)@.len(),
            |i: int|
                if i < count {
                    old(buffer)@[i + from]
                } else {
                    old(buffer)@[i]
                },
        ),
{
    let ghost samples = buffer@;
    assert(buffer.len() == samples.len());
    let mut i: usize = 0;
    while i < count
        invariant
            samples == old(buffer)@,
            i <= count,
            from + count <= samples.len() <= usize::MAX,
            buffer@ == Seq::new(
                samples.len(),
                |j: int|
                    if j < i {
                        samples[j + from]
                    } else {
                        samples[j]
                    },
            ),
        decreases count - i,
    {
        let sample: S = buffer[from + i];
        buffer.set(i, sample);
        i = i + 1;
    }
}

/// How many samples are missing from a frame of `channels` samples after `samples` samples.
pub open spec fn padding_needed(samples: int, channels: int) -> int {
    if samples % channels == 0 {
        0
    } else {
        channels - samples % channels
    }
}

/// The number of samples that complete a frame of which `samples_in_current_frame` samples are
/// there.
pub fn padding_samples_needed(samples_in_current_frame: usize, channels: ChannelCount) -> (r: usize)
    ensures
        r == padding_needed(samples_in_current_frame as int, channels@),
        r < channels@,
{
    let channels: usize = channels.get() as usize;
    let rest: usize = samples_in_current_frame % channels;
    if rest == 0 {
        0
    } else {
        channels - rest
    }
}

/// The padding completes the frame, and nothing shorter does.
pub proof fn law_padding_completes_the_frame(samples: int, channels: int, n: int)
    requires
        samples >= 0,
        channels > 0,
        n >= 0,
    ensures
        0 <= padding_needed(samples, channels) < channels,
        (samples + padding_needed(samples, channels)) % channels == 0,
        (samples + n) % channels == 0 ==> n >= padding_needed(samples, channels),
{
    let rest = samples % channels;
    lemma_fundamental_div_mod(samples, channels);
    lemma_mod_bound(samples, channels);
    if rest > 0 {
        let q = samples / channels;
        assert(samples + (channels - rest) == (q + 1) * channels) by (nonlinear_arith)
            requires
                samples == channels * q + rest,
        ;
        lemma_mod_multiples_basic(q + 1, channels);
        if n < channels - rest {
            lemma_mul_is_commutative(channels, q);
            lemma_fundamental_div_mod_converse(samples + n, channels, q, rest + n);
        }
    } else {
        assert(samples + 0 == samples);
    }
}

/// `samples` without the first `delay`.
pub open spec fn without_delay<S>(samples: Seq<S>, delay: int) -> Seq<S> {
    samples.skip(min(delay, samples.len() as int))
}

/// Skipping the delay of a stream, chunk by chunk, is skipping it at its start.
pub proof fn law_delay_spans_chunks<S>(before: Seq<S>, chunk: Seq<S>, delay: int)
    requires
        delay >= 0,
    ensures
        ({
            let left = delay - min(delay, before.len() as int);
            &&& without_delay(before + chunk, delay) == without_delay(before, delay)
                + without_delay(chunk, left)
            &&& delay - min(delay, (before + chunk).len() as int) == left - min(
                left,
                chunk.len() as int,
            )
        }),
{
    let left = delay - min(delay, before.len() as int);
    assert(without_delay(before + chunk, delay) =~= without_delay(before, delay)
        + without_delay(chunk, left));
}

/// A source is asked once for every sample that it yields, and once more only where it has no more.
pub proof fn law_sources_are_asked_no_more_than_needed(taken: nat, wanted: nat)
    ensures
        taken == wanted ==> times_asked(taken, wanted) == taken,
        taken < wanted ==> times_asked(taken, wanted) == taken + 1,
{
}

/// Without its delay, a stream starts with the sample after it, and has none where the delay lasts
/// longer.
pub proof fn law_without_delay<S>(samples: Seq<S>, delay: int)
    requires
        delay >= 0,
    ensures
        delay <= samples.len() ==> without_delay(samples, delay).len() == samples.len() - delay,
        delay >= samples.len() ==> without_delay(samples, delay).len() == 0,
        forall|i: int|
            0 <= i < samples.len() - delay ==> #[trigger] without_delay(samples, delay)[i]
                == samples[delay + i],
{
}

} // verus!
