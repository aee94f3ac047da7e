//! The pace of gain changes.
use crate::common::SampleRate;
use vstd::prelude::*;

verus! {

/// State for adaptive slowdown of gain changes.
///
/// This struct holds the state for managing the slowdown of gain changes based on signal conditions.
/// The `slowdown_factor` determines how quickly or slowly the gain can change:
/// - When the signal is quiet and we're close to target, changes are allowed normally
/// - When the signal peaks significantly, changes are slowed down exponentially
/// - This prevents abrupt loudness jumps during automatic gain control adjustments.
///
/// The factor is computed anew once in a block.
#[derive(Debug)]
pub struct SlowDownState<F> {
    pub block_size: usize,
    pub sample_counter: usize,
    pub slowdown_factor: F,
}

/// The number of samples in two milliseconds, where whole milliseconds are counted.
pub open spec fn samples_in_block(sample_rate: int) -> int {
    (sample_rate / 1000) * 2
}

impl<F: Copy> SlowDownState<F> {
    /// The counter is a position within a block.
    pub open spec fn wf(&self) -> bool {
        self.sample_counter < self.block_size
    }

    /// The state at the start of a block.
    pub fn new(sample_rate: SampleRate, slowdown_factor: F) -> (r: SlowDownState<F>)
        ensures
            r.block_size == samples_in_block(sample_rate@),
            r.sample_counter == 0,
            r.slowdown_factor == slowdown_factor,
            r.wf() <==> sample_rate@ >= 1000,
    {
        // Calculate and cache block size based on sample rate
        let block_size: usize = (sample_rate.get() as usize / 1000) * 2;  // 2ms blocks
        SlowDownState { block_size, sample_counter: 0, slowdown_factor }
    }

    /// Counts a sample.
    pub fn increment_sample_counter(&mut self)
        requires
            old(self).wf(),
        ensures
            final(self).wf(),
            final(self).sample_counter == (old(self).sample_counter + 1)
                % old(self).block_size as int,
            final(self).block_size == old(self).block_size,
            final(self).slowdown_factor == old(self).slowdown_factor,
    {
        self.sample_counter = (self.sample_counter + 1) % self.block_size;
    }

    /// Whether the factor is due to be computed anew.
    pub fn is_at_block_start(&self) -> (r: bool)
        ensures
            r == (self.sample_counter == 0),
    {
        self.sample_counter == 0
    }
}

/// A block holds two samples for every whole millisecond's worth of samples: it is even, and half of
/// it counts the thousands in the rate.
pub proof fn law_samples_in_block(sample_rate: int)
    requires
        sample_rate >= 0,
    ensures
        samples_in_block(sample_rate) % 2 == 0,
        samples_in_block(sample_rate) * 500 <= sample_rate < (samples_in_block(sample_rate) + 2)
            * 500,
        samples_in_block(sample_rate + 1000) == samples_in_block(sample_rate) + 2,
{
}

} // verus!
