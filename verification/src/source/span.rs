//! Noticing that a new span of a source has begun.
use crate::common::{ChannelCount, SampleRate};
use crate::source::Source;
use vstd::prelude::*;

verus! {

/// What was noticed about the span of a source.
#[derive(Debug, Clone, Copy, PartialEq, Eq, Structural)]
pub struct SpanDetection {
    /// A new span has begun.
    pub at_span_boundary: bool,
    /// Its sample rate or its channel count differ from those of the span before.
    pub parameters_changed: bool,
}

/// Remembers the sample rate and the channel count of a source. A new span is noticed by a change
/// of either: a span in which neither changes makes no difference to whoever plays it.
#[derive(Debug)]
pub struct SpanTracker {
    pub last_sample_rate: SampleRate,
    pub last_channels: ChannelCount,
}

impl SpanTracker {
    /// The source is the one that is remembered, as far as the parameters go.
    pub open spec fn agrees_with<I: Source>(&self, input: I) -> bool {
        self.last_sample_rate@ == input.rate()@ && self.last_channels@ == input.channel_count()@
    }

    /// Remembers these parameters.
    pub fn new(sample_rate: SampleRate, channels: ChannelCount) -> (r: SpanTracker)
        ensures
            r.last_sample_rate == sample_rate,
            r.last_channels == channels,
    {
        SpanTracker { last_sample_rate: sample_rate, last_channels: channels }
    }

    /// Compares the parameters of `input` with those that are remembered, and remembers them.
    pub fn advance<I: Source>(&mut self, input: &I) -> (r: SpanDetection)
        ensures
            r.parameters_changed <==> !old(self).agrees_with(*input),
            r.at_span_boundary <==> !old(self).agrees_with(*input),
            r.parameters_changed <==> old(self).last_sample_rate@ != input.rate()@ || old(
                self,
            ).last_channels@ != input.channel_count()@,
            r.at_span_boundary == r.parameters_changed,
            final(self).last_sample_rate == input.rate(),
            final(self).last_channels == input.channel_count(),
    {
        let sample_rate: SampleRate = input.sample_rate();
        let channels: ChannelCount = input.channels();
        let changed: bool = sample_rate.get() != self.last_sample_rate.get() || channels.get()
            != self.last_channels.get();
        self.last_sample_rate = sample_rate;
        self.last_channels = channels;
        SpanDetection { at_span_boundary: changed, parameters_changed: changed }
    }

    /// A span is noticed exactly when the sample rate or the channel count is another, whether more
    /// or less: any difference in either is enough, and nothing else is.
    pub proof fn law_any_change_is_noticed<I: Source>(self, input: I)
        ensures
            self.last_sample_rate@ < input.rate()@ ==> !self.agrees_with(input),
            self.last_sample_rate@ > input.rate()@ ==> !self.agrees_with(input),
            self.last_channels@ < input.channel_count()@ ==> !self.agrees_with(input),
            self.last_channels@ > input.channel_count()@ ==> !self.agrees_with(input),
            self.last_sample_rate@ == input.rate()@ && self.last_channels@
                == input.channel_count()@ ==> self.agrees_with(input),
    {
    }

    /// A change is noticed whichever way it goes: where one source is taken for a new span after
    /// the other, so is the other after the one.
    pub proof fn law_changes_are_noticed_both_ways<I: Source>(a: Self, b: Self, x: I, y: I)
        requires
            a.last_sample_rate == x.rate(),
            a.last_channels == x.channel_count(),
            b.last_sample_rate == y.rate(),
            b.last_channels == y.channel_count(),
        ensures
            a.agrees_with(y) == b.agrees_with(x),
            a.agrees_with(x),
            b.agrees_with(y),
    {
    }
}

} // verus!
