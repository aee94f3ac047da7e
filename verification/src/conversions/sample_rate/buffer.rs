//! Fixed-capacity sample buffers: one to gather input in, one to read output from.
use crate::common::{
    samples_of, whole_frames, ChannelCount, FrameCount, InSamples, OutFrameCount, OutSamples,
    SampleCount, SampleRate,
};
use crate::source::{
    lemma_samples_available_is, repeated, samples_available, times_asked, Source,
};
use vstd::prelude::*;

verus! {

/// Fixed-capacity buffer that samples are gathered in.
pub struct Input<S> {
    samples: Vec<S>,
    pos: InSamples,
}

impl<S> Input<S> {
    /// The whole buffer, whether or not it is full.
    pub closed spec fn samples(&self) -> Seq<S> {
        self.samples@
    }

    /// How many samples have been gathered.
    pub closed spec fn pos(&self) -> int {
        self.pos.0 as int
    }

    /// The samples that have been gathered.
    pub open spec fn held(&self) -> Seq<S> {
        self.samples().subrange(0, self.pos())
    }

    /// No more samples have been gathered than there is room for.
    pub open spec fn wf(&self) -> bool {
        0 <= self.pos() <= self.samples().len() <= usize::MAX
    }
}

impl<S: Copy> Input<S> {
    /// A buffer with room for `capacity` samples, holding nothing but `equilibrium`.
    pub fn new(capacity: InSamples, equilibrium: S) -> (r: Input<S>)
        ensures
            r.wf(),
            r.pos() == 0,
            r.samples() == Seq::new(capacity.0 as nat, |i: int| equilibrium),
    {
        Input { samples: repeated(equilibrium, capacity.raw()), pos: InSamples::zero() }
    }

    /// Adds a sample.
    pub fn push(&mut self, sample: S)
        requires
            old(self).wf(),
            old(self).pos() < old(self).samples().len(),
        ensures
            final(self).wf(),
            final(self).pos() == old(self).pos() + 1,
            final(self).samples() == old(self).samples().update(old(self).pos(), sample),
            final(self).held() == old(self).held().push(sample),
    {
        self.samples.set(self.pos.raw(), sample);
        self.pos = self.pos + 1usize;
    }

    /// The whole buffer, whether or not it is full.
    pub fn as_slice(&self) -> (r: &[S])
        ensures
            r@ == self.samples(),
    {
        self.samples.as_slice()
    }

    /// Starts gathering anew.
    pub fn clear(&mut self)
        requires
            old(self).wf(),
        ensures
            final(self).wf(),
            final(self).pos() == 0,
            final(self).samples() == old(self).samples(),
    {
        self.pos = InSamples::zero();
    }

    /// The number of samples that have been gathered.
    pub fn len(&self) -> (r: InSamples)
        ensures
            r.0 == self.pos(),
    {
        self.pos
    }

    /// Gathers samples of `input` anew: `count` of them, or as many as come before the first
    /// `None`.
    pub fn refill<I: Source<Item = S>>(&mut self, input: &mut I, count: usize)
        requires
            old(self).wf(),
            count <= old(self).samples().len(),
        ensures
            final(self).wf(),
            final(self).samples().len() == old(self).samples().len(),
            final(self).pos() == samples_available(*old(input), count as nat),
            final(self).pos() <= count,
            final(self).held() == Seq::new(
                samples_available(*old(input), count as nat),
                |i: int| old(input).upcoming(i as nat)->0,
            ),
            final(self).samples().skip(final(self).pos()) == old(self).samples().skip(
                final(self).pos(),
            ),
            forall|n: nat| #[trigger]
                final(input).upcoming(n) == old(input).upcoming(
                    n + times_asked(
                        samples_available(*old(input), count as nat),
                        count as nat,
                    ),
                ),
    {
        let ghost source = *input;
        let ghost before = self.samples();
        self.clear();
        while self.len().raw() < count
            invariant
                source == *old(input),
                before == old(self).samples(),
                self.wf(),
                self.pos() <= count <= before.len(),
                self.samples().len() == before.len(),
                self.samples().skip(self.pos()) == before.skip(self.pos()),
                forall|n: nat| #[trigger]
                    input.upcoming(n) == source.upcoming(n + self.pos() as nat),
                forall|i: nat| i < self.pos() ==> #[trigger] source.upcoming(i) is Some,
                self.held() == Seq::new(
                    self.pos() as nat,
                    |i: int| source.upcoming(i as nat)->0,
                ),
            decreases count - self.pos(),
        {
            match input.next() {
                Some(sample) => {
                    let ghost mid = *self;
                    self.push(sample);
                    assert(self.samples().skip(self.pos()) == mid.samples().skip(mid.pos()).skip(1));
                    assert(before.skip(self.pos()) == before.skip(mid.pos()).skip(1));
                },
                None => {
                    proof {
                        lemma_samples_available_is(source, count as nat, self.pos() as nat);
                    }
                    return;
                },
            }
        }
        proof {
            lemma_samples_available_is(source, count as nat, self.pos() as nat);
        }
    }
}

/// Fixed-capacity buffer that holds a chunk of output and is read sample by sample.
pub struct Output<S> {
    start: OutSamples,
    pos: OutSamples,
    end: OutSamples,
    samples: Vec<S>,
    channels: ChannelCount,
    source_rate: SampleRate,
}

impl<S> Output<S> {
    /// The whole buffer.
    pub closed spec fn samples(&self) -> Seq<S> {
        self.samples@
    }

    /// The number of channels of the output.
    pub closed spec fn channel_count(&self) -> ChannelCount {
        self.channels
    }

    /// The sample rate of what the output is made from.
    pub closed spec fn rate(&self) -> SampleRate {
        self.source_rate
    }

    /// Where the chunk starts.
    pub closed spec fn start(&self) -> int {
        self.start.0 as int
    }

    /// Where it is read next.
    pub closed spec fn pos(&self) -> int {
        self.pos.0 as int
    }

    /// Where it ends.
    pub closed spec fn end(&self) -> int {
        self.end.0 as int
    }

    /// The samples that are still to be read.
    pub open spec fn unread(&self) -> Seq<S> {
        self.samples().subrange(self.pos(), self.end())
    }

    /// The chunk ends within the buffer.
    pub open spec fn wf(&self) -> bool {
        &&& self.channel_count()@ > 0
        &&& 0 <= self.start()
        &&& 0 <= self.pos()
        &&& 0 <= self.end() <= self.samples().len() <= usize::MAX
    }

    /// The cursor is within the chunk.
    pub open spec fn is_consistent(&self) -> bool {
        self.start() <= self.pos() <= self.end()
    }
}

impl<S: Copy> Output<S> {
    /// A buffer with room for `capacity` frames of `channels` samples, holding nothing but
    /// `equilibrium`.
    pub fn new(
        source_rate: SampleRate,
        channels: ChannelCount,
        capacity: FrameCount,
        equilibrium: S,
    ) -> (r: Output<S>)
        requires
            samples_of(capacity.0 as int, channels@) <= usize::MAX,
        ensures
            r.wf(),
            r.start() == 0,
            r.pos() == 0,
            r.end() == 0,
            r.samples() == Seq::new(
                samples_of(capacity.0 as int, channels@) as nat,
                |i: int| equilibrium,
            ),
            r.channel_count() == channels,
            r.rate() == source_rate,
    {
        let _: u16 = channels.get();
        Output {
            start: OutSamples::zero(),
            pos: OutSamples::zero(),
            end: OutSamples::zero(),
            samples: repeated(equilibrium, capacity.samples(channels).raw()),
            channels,
            source_rate,
        }
    }

    /// The number of channels of the output.
    pub fn channels(&self) -> (r: ChannelCount)
        ensures
            r == self.channel_count(),
    {
        self.channels
    }

    /// The sample rate of what the output is made from.
    pub fn source_rate(&self) -> (r: SampleRate)
        ensures
            r == self.rate(),
    {
        self.source_rate
    }

    /// The number of whole frames that there is room for.
    pub fn capacity(&self) -> (r: FrameCount)
        ensures
            r.0 == whole_frames(self.samples().len() as int, self.channel_count()@),
    {
        SampleCount(self.samples.len()).frames(self.channels)
    }

    /// The number of samples that are still to be read.
    pub fn len(&self) -> (r: OutSamples)
        requires
            self.pos() <= self.end(),
        ensures
            r.0 == self.end() - self.pos(),
    {
        self.end - self.pos
    }

    /// Whether all samples have been read.
    pub fn is_empty(&self) -> (r: bool)
        requires
            self.pos() <= self.end(),
        ensures
            r == (self.pos() == self.end()),
    {
        self.len().raw() == 0
    }

    /// The whole buffer.
    pub fn as_slice(&self) -> (r: &[S])
        ensures
            r@ == self.samples(),
    {
        self.samples.as_slice()
    }

    /// Where the chunk starts, where it is read next, and where it ends.
    pub fn bounds(&self) -> (r: (OutSamples, OutSamples, OutSamples))
        ensures
            r.0.0 == self.start(),
            r.1.0 == self.pos(),
            r.2.0 == self.end(),
    {
        (self.start, self.pos, self.end)
    }

    /// Forgets the chunk, and hands out the whole buffer for a new one to be written.
    pub fn reset(&mut self) -> (r: &mut [S])
        ensures
            r@ == old(self).samples(),
            final(self).samples() == final(r)@,
            final(self).start() == 0,
            final(self).pos() == 0,
            final(self).end() == 0,
            final(self).channel_count() == old(self).channel_count(),
            final(self).rate() == old(self).rate(),
    {
        self.pos = OutSamples::zero();
        self.start = OutSamples::zero();
        self.end = OutSamples::zero();
        self.samples.as_mut_slice()
    }

    /// Lets the chunk start at frame `start`, and be read from there.
    pub fn set_start(&mut self, start: OutFrameCount)
        requires
            old(self).wf(),
            samples_of(start.0 as int, old(self).channel_count()@) <= old(self).end(),
        ensures
            final(self).wf(),
            final(self).is_consistent(),
            final(self).start() == samples_of(start.0 as int, old(self).channel_count()@),
            final(self).pos() == final(self).start(),
            final(self).end() == old(self).end(),
            final(self).samples() == old(self).samples(),
            final(self).channel_count() == old(self).channel_count(),
            final(self).rate() == old(self).rate(),
    {
        self.start = start.samples(self.channels);
        self.pos = self.start;
    }

    /// Lets the chunk end before frame `end`.
    pub fn set_end(&mut self, end: OutFrameCount)
        requires
            old(self).wf(),
            samples_of(end.0 as int, old(self).channel_count()@) <= old(self).samples().len(),
        ensures
            final(self).wf(),
            final(self).end() == samples_of(end.0 as int, old(self).channel_count()@),
            final(self).start() == old(self).start(),
            final(self).pos() == old(self).pos(),
            final(self).samples() == old(self).samples(),
            final(self).channel_count() == old(self).channel_count(),
            final(self).rate() == old(self).rate(),
    {
        self.end = end.samples(self.channels);
    }

    /// The length of the chunk, read and unread, in samples.
    pub fn current_span_len(&self) -> (r: usize)
        requires
            self.start() <= self.end(),
        ensures
            r == self.end() - self.start(),
    {
        (self.end - self.start).raw()
    }

    /// Reads the next sample, where there is one.
    pub fn next(&mut self) -> (r: Option<S>)
        requires
            old(self).wf(),
        ensures
            final(self).wf(),
            old(self).pos() < old(self).end() ==> {
                &&& r == Some(old(self).samples()[old(self).pos()])
                &&& final(self).pos() == old(self).pos() + 1
                &&& final(self).unread() == old(self).unread().skip(1)
            },
            old(self).pos() >= old(self).end() ==> {
                &&& r is None
                &&& *final(self) == *old(self)
            },
            final(self).start() == old(self).start(),
            final(self).end() == old(self).end(),
            final(self).samples() == old(self).samples(),
            final(self).channel_count() == old(self).channel_count(),
            final(self).rate() == old(self).rate(),
    {
        if self.pos.raw() >= self.end.raw() {
            None
        } else {
            let sample: S = self.samples[self.pos.raw()];
            self.pos = self.pos + 1usize;
            assert(self.unread() == old(self).unread().skip(1));
            Some(sample)
        }
    }
}

/// Which of a number of samples are shown where showing all of them would be too much.
#[derive(Debug, Clone, Copy, PartialEq, Eq, Structural)]
pub enum LimitLength {
    /// There is nothing to show.
    Nothing,
    /// All of them.
    Everything,
    /// The first `head` and the last `tail`; `hidden` are left out between them.
    Ends { head: usize, hidden: usize, tail: usize },
}

impl LimitLength {
    /// What is shown of `len` samples: all, if they are fewer than eight, else the first and the
    /// last three.
    pub fn of(len: usize) -> (r: LimitLength)
        ensures
            r == if len == 0 {
                LimitLength::Nothing
            } else if len < 8 {
                LimitLength::Everything
            } else {
                LimitLength::Ends { head: 3, hidden: (len - 6) as usize, tail: 3 }
            },
    {
        if len == 0 {
            LimitLength::Nothing
        } else if len < 8 {
            LimitLength::Everything
        } else {
            LimitLength::Ends { head: 3, hidden: len - 6, tail: 3 }
        }
    }
}

impl<S> Input<S> {
    /// What has been gathered stands at the start of the buffer.
    pub proof fn law_gathered_samples(&self, i: int)
        requires
            self.wf(),
            0 <= i < self.pos(),
        ensures
            self.held().len() == self.pos(),
            self.held()[i] == self.samples()[i],
    {
    }
}

impl<S> Output<S> {
    /// What is to be read lies between where the chunk is read next and where it ends.
    pub proof fn law_unread_samples(&self, i: int)
        requires
            self.wf(),
            0 <= i < self.end() - self.pos(),
        ensures
            self.unread().len() == self.end() - self.pos(),
            self.unread()[i] == self.samples()[self.pos() + i],
    {
    }
}

} // verus!
