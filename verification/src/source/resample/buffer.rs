//! Fixed-capacity sample buffer with a read cursor.
//!
//! Holds one chunk of resampled output. Callers reset it with the number of freshly written
//! samples, optionally skip delay samples at the head, optionally cap it to trim filter
//! artifacts at the tail, and then drain it sample-by-sample.
use crate::source::repeated;
use vstd::math::*;
use vstd::prelude::*;

verus! {

/// Fixed-capacity sample buffer with a read cursor.
pub struct Buffer<S> {
    data: Vec<S>,
    pos: usize,
    len: usize,
}

impl<S> Buffer<S> {
    /// The whole backing allocation.
    pub closed spec fn data(&self) -> Seq<S> {
        self.data@
    }

    /// Where the cursor is.
    pub closed spec fn cursor(&self) -> int {
        self.pos as int
    }

    /// How many samples from the start are valid.
    pub closed spec fn valid(&self) -> int {
        self.len as int
    }

    /// The cursor never passes the end of the valid samples.
    pub open spec fn wf(&self) -> bool {
        0 <= self.cursor() <= self.valid()
    }

    /// The samples that are still to be read.
    pub open spec fn unread(&self) -> Seq<S> {
        self.data().subrange(self.cursor(), self.valid())
    }
}

impl<S> Buffer<S> {
    /// No buffer is larger than memory.
    pub proof fn lemma_capacity_is_bounded(&self)
        ensures
            self.data().len() <= usize::MAX,
    {
        assert(self.data.len() == self.data@.len());
    }
}

impl<S: Copy> Buffer<S> {
    /// Create a new buffer with the given capacity, holding nothing but `equilibrium`.
    pub fn new(capacity: usize, equilibrium: S) -> (r: Buffer<S>)
        ensures
            r.wf(),
            r.data() == Seq::new(capacity as nat, |i: int| equilibrium),
            r.cursor() == 0,
            r.valid() == 0,
    {
        Buffer { data: repeated(equilibrium, capacity), pos: 0, len: 0 }
    }

    /// Reset for a new fill: rewind cursor to 0 and record the number of valid samples.
    pub fn reset(&mut self, filled: usize)
        ensures
            final(self).wf(),
            final(self).data() == old(self).data(),
            final(self).cursor() == 0,
            final(self).valid() == filled,
    {
        self.pos = 0;
        self.len = filled;
    }

    /// Advance the cursor by `n` samples (capped at `len`).
    pub fn skip(&mut self, n: usize)
        requires
            old(self).wf(),
            old(self).cursor() + n <= usize::MAX,
        ensures
            final(self).wf(),
            final(self).data() == old(self).data(),
            final(self).valid() == old(self).valid(),
            final(self).cursor() == min(old(self).cursor() + n, old(self).valid()),
    {
        let target: usize = self.pos + n;
        self.pos = if target <= self.len {
            target
        } else {
            self.len
        };
    }

    /// Shrink `len` so at most `remaining` more samples will be returned from the cursor.
    pub fn cap_to_remaining(&mut self, remaining: usize)
        requires
            old(self).wf(),
            old(self).cursor() + remaining <= usize::MAX,
        ensures
            final(self).wf(),
            final(self).data() == old(self).data(),
            final(self).cursor() == old(self).cursor(),
            final(self).valid() == min(old(self).valid(), old(self).cursor() + remaining),
    {
        let end: usize = self.pos + remaining;
        if end < self.len {
            self.len = end;
        }
    }

    /// True when the cursor has reached the end of the valid data.
    pub fn is_empty(&self) -> (r: bool)
        ensures
            r == (self.cursor() >= self.valid()),
    {
        self.pos >= self.len
    }

    /// Read the next sample and advance the cursor.
    pub fn read(&mut self) -> (r: S)
        requires
            old(self).wf(),
            old(self).cursor() < old(self).valid() <= old(self).data().len(),
        ensures
            final(self).wf(),
            r == old(self).unread().first(),
            final(self).unread() == old(self).unread().drop_first(),
            final(self).data() == old(self).data(),
            final(self).cursor() == old(self).cursor() + 1,
            final(self).valid() == old(self).valid(),
    {
        let s: S = self.data[self.pos];
        self.pos = self.pos + 1;
        s
    }

    /// Total capacity of the backing allocation.
    pub fn capacity(&self) -> (r: usize)
        ensures
            r == self.data().len(),
    {
        self.data.len()
    }

    /// Number of valid samples set by the last `reset` call.
    pub fn len(&self) -> (r: usize)
        ensures
            r == self.valid(),
    {
        self.len
    }

    /// Number of samples remaining before the cursor reaches the end.
    pub fn remaining(&self) -> (r: usize)
        requires
            self.wf(),
        ensures
            r == self.valid() - self.cursor(),
    {
        self.len - self.pos
    }

    /// Full backing slice for writing via an audio adapter.
    pub fn as_mut_slice(&mut self) -> (r: &mut [S])
        ensures
            r@ == old(self).data(),
            final(self).data() == final(r)@,
            final(self).cursor() == old(self).cursor(),
            final(self).valid() == old(self).valid(),
    {
        self.data.as_mut_slice()
    }
}

impl<S> Buffer<S> {
    /// What is to be read is what lies between the cursor and the end of the valid samples.
    pub proof fn law_unread_samples(&self, i: int)
        requires
            self.wf(),
            self.valid() <= self.data().len(),
            0 <= i < self.valid() - self.cursor(),
        ensures
            self.unread().len() == self.valid() - self.cursor(),
            self.unread()[i] == self.data()[self.cursor() + i],
    {
    }
}

} // verus!
