//! The window over which the level of a signal is measured.
use crate::common::SampleRate;
use crate::math::{is_power_of_two, lemma_mask_is_remainder, next_power_of_two};
use crate::source::repeated;
use crate::time::Duration;
use vstd::arithmetic::div_mod::*;
use vstd::math::*;
use vstd::prelude::*;

verus! {

/// A circular buffer optimised for RMS calculation over a sliding window.
///
/// Maintains a running sum of squares with O(1) updates and retrieval,
/// avoiding the need to scan stored samples for mean calculations.
#[derive(Debug)]
pub struct CircularBufferRMS<F> {
    buffer: Vec<F>,  // Runtime-sized window so RMS spans the same time range at any sample rate
    /// Keeps a running square-sum so RMS can be updated without re-scanning the entire buffer
    sum_of_squares: F,
    index: usize,  // Marks the current slot; each new sample overwrites the oldest one as we advance
    mask: usize,  // Lets the index wrap with `&` instead of `%`, which is faster because the size is a power of two
}

/// The milliseconds in `window` nanoseconds, as many as a `usize` has room for.
pub open spec fn window_millis(window: int) -> usize {
    #[verifier::truncate] ((window / 1_000_000) as u128 as usize)
}

/// The number of samples in `millis` milliseconds at the given rate, rounded up, and at least one.
pub open spec fn window_samples(sample_rate: int, millis: int) -> int {
    max((sample_rate * millis + 999) / 1000, 1)
}

impl<F> CircularBufferRMS<F> {
    /// The slots, in the order of the buffer.
    pub closed spec fn slots(&self) -> Seq<F> {
        self.buffer@
    }

    /// The slot that is overwritten next.
    pub closed spec fn index(&self) -> int {
        self.index as int
    }

    /// The running sum of squares.
    pub closed spec fn sum(&self) -> F {
        self.sum_of_squares
    }

    /// The number of slots is a power of two, and the mask belongs to it.
    pub closed spec fn wf(&self) -> bool {
        &&& is_power_of_two(self.buffer@.len() as int)
        &&& self.buffer@.len() <= usize::MAX
        &&& self.mask == self.buffer@.len() - 1
        &&& self.index < self.buffer@.len()
    }

    /// The values in the window, from the oldest to the newest.
    pub open spec fn window(&self) -> Seq<F> {
        self.slots().skip(self.index()) + self.slots().take(self.index())
    }
}

impl<F: Copy> CircularBufferRMS<F> {
    /// Calculates the buffer size from the sample rate and target window length.
    ///
    /// The window is expressed in milliseconds, converted to samples, then rounded
    /// up to the next power of two for efficient index wrapping using bitwise arithmetic.
    pub fn calculate_rms_buffer_size(sample_rate: SampleRate, window: Duration) -> (r: usize)
        requires
            sample_rate@ * window_millis(window@) <= usize::MAX,
        ensures
            is_power_of_two(r as int),
            r >= window_samples(sample_rate@, window_millis(window@) as int),
            forall|p: int| #[trigger]
                is_power_of_two(p) && p >= window_samples(
                    sample_rate@,
                    window_millis(window@) as int,
                ) ==> p >= r,
    {
        // Convert the time window into the number of samples for this sample rate
        // Example: 44,100 x 20 ms / 1,000 -> 882 samples
        let millis: usize = #[verifier::truncate] (window.as_millis() as usize);
        let product: usize = sample_rate.get() as usize * millis;
        let samples: usize = if product % 1000 == 0 {
            product / 1000
        } else {
            product / 1000 + 1
        };
        // Ensure minimum 1 sample, then round up to nearest power of two
        // Result: 882 samples -> 1024-sample buffer
        // Which is: 1024 samples at 44,100 Hz = 23.2 ms
        let samples: usize = if samples < 1 {
            1
        } else {
            samples
        };
        next_power_of_two(samples)
    }

    /// A window of `size` slots that all hold `zero`.
    pub fn with_size(size: usize, zero: F) -> (r: CircularBufferRMS<F>)
        requires
            is_power_of_two(size as int),
        ensures
            r.wf(),
            r.slots() == Seq::new(size as nat, |i: int| zero),
            r.index() == 0,
            r.sum() == zero,
            r.window() == Seq::new(size as nat, |i: int| zero),
    {
        proof {
            lemma_mask_is_remainder(0, size);
        }
        CircularBufferRMS {
            buffer: repeated(zero, size),
            sum_of_squares: zero,
            index: 0,
            mask: size - 1,
        }
    }

    /// Creates a new `CircularBufferRMS` from a sample rate and target window size.
    ///
    /// The buffer size is computed from the requested duration and rounded up to a power of two
    /// so wrapping can use bitwise arithmetic instead of modulo.
    pub fn new(sample_rate: SampleRate, window: Duration, zero: F) -> (r: CircularBufferRMS<F>)
        requires
            sample_rate@ * window_millis(window@) <= usize::MAX,
        ensures
            r.wf(),
            r.index() == 0,
            r.sum() == zero,
            is_power_of_two(r.slots().len() as int),
            r.slots().len() >= window_samples(sample_rate@, window_millis(window@) as int),
            forall|p: int| #[trigger]
                is_power_of_two(p) && p >= window_samples(
                    sample_rate@,
                    window_millis(window@) as int,
                ) ==> p >= r.slots().len(),
            r.window() == Seq::new(r.slots().len(), |i: int| zero),
    {
        // Calculate the buffer size from the sample_rate and target window
        let size: usize = Self::calculate_rms_buffer_size(sample_rate, window);
        Self::with_size(size, zero)
    }

    /// Adds a sample to the buffer, and returns the one that it displaces: the oldest.
    pub fn push(&mut self, value: F) -> (r: F)
        requires
            old(self).wf(),
        ensures
            final(self).wf(),
            r == old(self).window()[0],
            final(self).window() == old(self).window().skip(1).push(value),
            final(self).slots().len() == old(self).slots().len(),
            final(self).sum() == old(self).sum(),
    {
        let old_value: F = self.buffer[self.index];
        self.buffer.set(self.index, value);
        proof {
            lemma_mask_is_remainder((self.index + 1) as usize, self.buffer.len());
        }
        let ghost before = *self;
        // Use bitwise for efficient index wrapping since the buffer size is a power of two.
        self.index = (self.index + 1) & self.mask;
        proof {
            let len = self.buffer@.len();
            if before.index + 1 < len {
                lemma_small_mod((before.index + 1) as nat, len);
            } else {
                lemma_mod_self_0(len as int);
            }
            assert(self.window() == old(self).window().skip(1).push(value));
        }
        old_value
    }

    /// Sets the running sum of squares.
    pub fn set_sum_of_squares(&mut self, sum_of_squares: F)
        ensures
            final(self).wf() == old(self).wf(),
            final(self).sum() == sum_of_squares,
            final(self).slots() == old(self).slots(),
            final(self).index() == old(self).index(),
    {
        self.sum_of_squares = sum_of_squares;
    }

    /// The running sum of squares.
    pub fn sum_of_squares(&self) -> (r: F)
        ensures
            r == self.sum(),
    {
        self.sum_of_squares
    }

    /// The number of slots.
    pub fn len(&self) -> (r: usize)
        ensures
            r == self.slots().len(),
    {
        self.buffer.len()
    }
}

/// The sum of the squares of `values`.
pub open spec fn sum_of_squares(values: Seq<int>) -> int
    decreases values.len(),
{
    if values.len() == 0 {
        0
    } else {
        sum_of_squares(values.drop_last()) + values.last() * values.last()
    }
}

/// The sum of squares can be taken apart at the front, too.
proof fn lemma_sum_of_squares_front(values: Seq<int>)
    requires
        values.len() > 0,
    ensures
        sum_of_squares(values) == values[0] * values[0] + sum_of_squares(values.skip(1)),
    decreases values.len(),
{
    if values.len() == 1 {
        assert(values.drop_last() == Seq::<int>::empty());
        assert(values.skip(1) == Seq::<int>::empty());
    } else {
        lemma_sum_of_squares_front(values.drop_last());
        assert(values.drop_last().skip(1) == values.skip(1).drop_last());
    }
}

/// When the window moves on, the sum of the squares in it loses the square of the oldest value and
/// gains that of the new one: the running sum needs no other value.
pub proof fn law_running_sum_of_squares(window: Seq<int>, value: int)
    requires
        window.len() > 0,
    ensures
        sum_of_squares(window.skip(1).push(value)) == (sum_of_squares(window) - window[0]
            * window[0]) + value * value,
{
    lemma_sum_of_squares_front(window);
    assert(window.skip(1).push(value).drop_last() == window.skip(1));
}

/// What the window holds after `values` were pushed, where it held `window` before.
pub open spec fn window_after<F>(window: Seq<F>, values: Seq<F>) -> Seq<F>
    decreases values.len(),
{
    if values.len() == 0 {
        window
    } else {
        window_after(window, values.drop_last()).skip(1).push(values.last())
    }
}

/// The window holds the values that were pushed last, in the order in which they were pushed.
pub proof fn law_window_holds_the_last_values<F>(window: Seq<F>, values: Seq<F>)
    requires
        window.len() > 0,
    ensures
        window_after(window, values) == (window + values).skip(values.len() as int),
    decreases values.len(),
{
    if values.len() > 0 {
        let earlier = values.drop_last();
        law_window_holds_the_last_values(window, earlier);
        assert((window + earlier).skip(earlier.len() as int).skip(1).push(values.last()) == (window
            + values).skip(values.len() as int));
    } else {
        assert((window + values).skip(0) == window);
    }
}

/// The sum that is kept while `values` are pushed into a window that held `window` and had the sum
/// `sum`: the square of the value that is displaced is subtracted, and that of the new one added.
pub open spec fn sum_after(window: Seq<int>, sum: int, values: Seq<int>) -> int
    decreases values.len(),
{
    if values.len() == 0 {
        sum
    } else {
        let displaced = window_after(window, values.drop_last())[0];
        (sum_after(window, sum, values.drop_last()) - displaced * displaced) + values.last()
            * values.last()
    }
}

/// The sum that is kept is that of the squares in the window, however many values were pushed.
pub proof fn law_kept_sum_is_that_of_the_window(window: Seq<int>, values: Seq<int>)
    requires
        window.len() > 0,
    ensures
        sum_after(window, sum_of_squares(window), values) == sum_of_squares(
            window_after(window, values),
        ),
    decreases values.len(),
{
    if values.len() > 0 {
        let earlier = values.drop_last();
        law_kept_sum_is_that_of_the_window(window, earlier);
        law_window_holds_the_last_values(window, earlier);
        law_running_sum_of_squares(window_after(window, earlier), values.last());
    }
}

/// After `values` were pushed into a new window of `size` slots, the window holds the last `size` of
/// them, with zeros in place of those that are missing, and the sum that is kept is that of their
/// squares: older values have no influence.
pub proof fn law_new_window_measures_the_last_values(size: nat, values: Seq<int>)
    requires
        size > 0,
    ensures
        ({
            let zeros = Seq::new(size, |i: int| 0int);
            let last = (zeros + values).skip(values.len() as int);
            &&& last.len() == size
            &&& window_after(zeros, values) == last
            &&& sum_after(zeros, 0, values) == sum_of_squares(last)
        }),
{
    let zeros = Seq::new(size, |i: int| 0int);
    lemma_zeros_have_no_squares(zeros);
    law_window_holds_the_last_values(zeros, values);
    law_kept_sum_is_that_of_the_window(zeros, values);
}

proof fn lemma_zeros_have_no_squares(zeros: Seq<int>)
    requires
        forall|i: int| 0 <= i < zeros.len() ==> #[trigger] zeros[i] == 0,
    ensures
        sum_of_squares(zeros) == 0,
    decreases zeros.len(),
{
    if zeros.len() > 0 {
        lemma_zeros_have_no_squares(zeros.drop_last());
    }
}

/// A window holds the fewest samples that cover its time, and at least one.
pub proof fn law_window_covers_its_time(sample_rate: int, millis: int)
    requires
        sample_rate >= 0,
        millis >= 0,
    ensures
        window_samples(sample_rate, millis) >= 1,
        window_samples(sample_rate, millis) * 1000 >= sample_rate * millis,
        window_samples(sample_rate, millis) > 1 ==> (window_samples(sample_rate, millis) - 1) * 1000
            < sample_rate * millis,
{
    vstd::arithmetic::mul::lemma_mul_nonnegative(sample_rate, millis);
}

/// Whole milliseconds are as many as there are, wherever they can be counted.
pub proof fn law_window_millis(window: int)
    requires
        0 <= window,
        window / 1_000_000 <= usize::MAX,
    ensures
        window_millis(window) * 1_000_000 <= window < (window_millis(window) + 1) * 1_000_000,
{
    let millis = (window / 1_000_000) as usize;
    assert(millis == window / 1_000_000);
    assert((millis as u128) as usize == millis);
}

impl<F> CircularBufferRMS<F> {
    /// The window starts with the slot that is overwritten next, goes on to the last slot and from
    /// there to the first.
    pub proof fn law_window_wraps_around(&self, i: int)
        requires
            self.wf(),
            0 <= i < self.slots().len(),
        ensures
            self.window().len() == self.slots().len(),
            self.index() + i < self.slots().len() ==> self.window()[i] == self.slots()[self.index()
                + i],
            self.index() + i >= self.slots().len() ==> self.window()[i] == self.slots()[self.index()
                + i - self.slots().len()],
            is_power_of_two(self.slots().len() as int),
    {
    }
}

} // verus!
