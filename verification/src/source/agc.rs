//! Automatic gain control of a source.
//!
//! Levels and gains are numbers of a type `F` that is left open: what is computed with them is up
//! to whoever processes the samples. What is here is everything else: the window of recent
//! samples, the pace at which the slowdown is computed anew, starting over at a span with other
//! parameters, and passing samples through unprocessed.
use crate::common::{ChannelCount, SampleRate};
use crate::math::is_power_of_two;
use crate::source::automatic_gain_control::config::Gain;
use crate::source::automatic_gain_control::rms::CircularBufferRMS;
use crate::source::automatic_gain_control::slowdown::{samples_in_block, SlowDownState};
use crate::source::span::{SpanDetection, SpanTracker};
use crate::source::Source;
use crate::time::Duration;
use vstd::arithmetic::power2::*;
use vstd::prelude::*;

verus! {

/// Ensures that `n` is a power of two
pub fn power_of_two(n: usize) -> (r: usize)
    requires
        is_power_of_two(n as int),
    ensures
        r == n,
{
    n
}

/// Size of the circular buffer used for RMS calculation.
/// A larger size provides more stable RMS values but increases latency.
pub const RMS_WINDOW_SIZE: usize = 1024;

/// A window of the size that is used for RMS calculation, all of it `zero`.
pub fn rms_window<F: Copy>(zero: F) -> (r: CircularBufferRMS<F>)
    ensures
        r.wf(),
        r.sum() == zero,
        r.window() == Seq::new(RMS_WINDOW_SIZE as nat, |i: int| zero),
        r.slots().len() == RMS_WINDOW_SIZE,
{
    proof {
        lemma2_to64();
        assert(is_power_of_two(pow2(10) as int));
    }
    CircularBufferRMS::with_size(power_of_two(RMS_WINDOW_SIZE), zero)
}

/// Settings for the Automatic Gain Control (AGC).
///
/// This struct contains parameters that define how the AGC will function,
/// allowing users to customise its behaviour.
#[derive(Debug, Clone, Copy, PartialEq, Eq, Structural)]
pub struct AutomaticGainControlSettings {
    /// The desired output level that the AGC tries to maintain.
    /// A gain of one means no change to the original level.
    pub target_level: Gain,
    /// Time constant for gain increases (how quickly the AGC responds to level increases).
    /// Longer durations result in slower, more gradual gain increases.
    pub attack_time: Duration,
    /// Time constant for gain decreases (how quickly the AGC responds to level decreases).
    /// Shorter durations allow for faster response to sudden loud signals.
    pub release_time: Duration,
    /// Maximum allowable gain multiplication to prevent excessive amplification.
    /// This acts as a safety limit to avoid distortion from over-amplification.
    pub absolute_max_gain: Gain,
    /// Duration of the peak tracking smoothing window.
    /// Controls how much peak level measurements are smoothed before being used for gain calculation.
    /// Larger values provide more stable peak detection but add latency to peak tracking.
    /// Smaller values respond faster to sudden peaks but may allow more transient clipping.
    pub peak_tracking_window: Duration,
}

impl Default for AutomaticGainControlSettings {
    fn default() -> (r: AutomaticGainControlSettings)
        ensures
            r.target_level.thousandths == 1_000,
            r.attack_time@ == 500_000_000,
            r.release_time@ == 500_000,
            r.absolute_max_gain.thousandths == 7_000,
            r.peak_tracking_window@ == 10_000_000,
    {
        AutomaticGainControlSettings {
            target_level: Gain { thousandths: 1_000 },  // Default to original level
            attack_time: Duration::from_millis(500),  // Recommended attack time
            release_time: Duration::from_micros(500),  // Recommended release time
            absolute_max_gain: Gain { thousandths: 7_000 },  // Recommended max gain
            // Recommended peak tracking window for balanced stability and responsiveness
            peak_tracking_window: Duration::from_millis(10),
        }
    }
}

/// The levels that a gain control starts with.
#[derive(Debug)]
pub struct Levels<F> {
    /// No level at all: the level of silence, and the floor of a gain that may drop to nothing.
    pub silence: F,
    /// The gain that leaves a sample as it is.
    pub unity: F,
    /// The peak level that is presumed before any sample has been seen.
    pub initial_peak: F,
}

/// The levels that a gain control starts with: no level, a gain of one, and a peak of seven tenths.
pub fn initial_levels() -> (r: Levels<Gain>)
    ensures
        r.silence.thousandths == 0,
        r.unity.thousandths == 1_000,
        r.initial_peak.thousandths == 700,
{
    Levels {
        silence: Gain { thousandths: 0 },
        unity: Gain { thousandths: 1_000 },
        initial_peak: Gain { thousandths: 700 },
    }
}

/// A sample, and what is to be done with it.
#[derive(Debug)]
pub enum Controlled<S> {
    /// The source has none.
    End,
    /// It is passed on unchanged.
    PassThrough(S),
    /// It is processed, and the slowdown factor is computed anew meanwhile if `at_block_start`.
    Process { sample: S, at_block_start: bool },
}

/// Automatic Gain Control filter for maintaining consistent output levels.
///
/// Audio levels are adjusted dynamically based on both **peak** and **RMS** (Root Mean Square)
/// measurements.
#[derive(Debug)]
pub struct AutomaticGainControl<I, F> {
    pub input: I,
    // Core gain values
    pub target_level: F,
    pub floor: F,
    pub absolute_max_gain: F,
    pub peak_tracking_window: Duration,
    pub current_gain: F,
    // Timing parameters
    pub attack_duration: F,
    pub release_duration: F,
    /// The attack duration that the control was constructed with.
    pub initial_attack_duration: F,
    /// The release duration that the control was constructed with.
    pub initial_release_duration: F,
    // Signal analysis state
    pub peak_level: F,
    pub release_coefficient: F,
    pub rms_window: CircularBufferRMS<F>,
    // Control flags
    pub is_enabled: bool,
    pub span: SpanTracker,
    // Slowdown tracking
    pub slow_down_state: SlowDownState<F>,
    pub levels: Levels<F>,
}

/// Constructs an `AutomaticGainControl` object with specified parameters.
///
/// # Arguments
///
/// `input` - The input audio source
/// `target_level` - The desired output level
/// `attack_duration` - Time constant for gain increase, in seconds
/// `release_duration` - Time constant for gain decrease, in seconds
/// `absolute_max_gain` - Maximum allowable gain
/// `peak_tracking_window` - Duration over which to track peak level
/// `release_coefficient` - How much of the peak level is kept from one sample to the next
/// `levels` - The levels to start with
pub fn automatic_gain_control<I: Source, F: Copy>(
    input: I,
    target_level: F,
    attack_duration: F,
    release_duration: F,
    absolute_max_gain: F,
    peak_tracking_window: Duration,
    release_coefficient: F,
    levels: Levels<F>,
) -> (r: AutomaticGainControl<I, F>)
    ensures
        r.input == input,
        r.target_level == target_level,
        r.floor == levels.silence,
        r.absolute_max_gain == absolute_max_gain,
        r.peak_tracking_window == peak_tracking_window,
        r.initial_attack_duration == attack_duration,
        r.initial_release_duration == release_duration,
        r.starts_over(release_coefficient),
        r.is_enabled,
        r.span.last_sample_rate == input.rate(),
        r.span.last_channels == input.channel_count(),
        r.slow_down_state.block_size == samples_in_block(input.rate()@),
        r.slow_down_state.sample_counter == 0,
        r.slow_down_state.slowdown_factor == levels.silence,
        r.levels == levels,
        r.wf() <==> input.rate()@ >= 1000,
{
    let sample_rate: SampleRate = input.sample_rate();
    let channels: ChannelCount = input.channels();
    AutomaticGainControl {
        input,
        target_level,
        floor: levels.silence,
        absolute_max_gain,
        peak_tracking_window,
        current_gain: levels.unity,
        attack_duration,
        release_duration,
        initial_attack_duration: attack_duration,
        initial_release_duration: release_duration,
        peak_level: levels.initial_peak,
        release_coefficient,
        rms_window: rms_window(levels.silence),
        is_enabled: true,
        span: SpanTracker::new(sample_rate, channels),
        slow_down_state: SlowDownState::new(sample_rate, levels.silence),
        levels,
    }
}

impl<I: Source, F: Copy> AutomaticGainControl<I, F> {
    /// The window and the count of samples are consistent.
    pub open spec fn wf(&self) -> bool {
        self.rms_window.wf() && self.slow_down_state.wf()
    }

    /// No sample has been seen yet, and the durations are those that the control was constructed
    /// with.
    pub open spec fn starts_over(&self, release_coefficient: F) -> bool {
        &&& self.attack_duration == self.initial_attack_duration
        &&& self.release_duration == self.initial_release_duration
        &&& self.current_gain == self.levels.unity
        &&& self.peak_level == self.levels.initial_peak
        &&& self.release_coefficient == release_coefficient
        &&& self.rms_window.wf()
        &&& self.rms_window.sum() == self.levels.silence
        &&& self.rms_window.window() == Seq::new(
            RMS_WINDOW_SIZE as nat,
            |i: int| self.levels.silence,
        )
    }

    /// `self` and `other` have the same settings, apart from the durations that may be adjusted
    /// meanwhile.
    pub open spec fn has_same_settings(&self, other: Self) -> bool {
        &&& self.target_level == other.target_level
        &&& self.floor == other.floor
        &&& self.absolute_max_gain == other.absolute_max_gain
        &&& self.peak_tracking_window == other.peak_tracking_window
        &&& self.initial_attack_duration == other.initial_attack_duration
        &&& self.initial_release_duration == other.initial_release_duration
        &&& self.is_enabled == other.is_enabled
        &&& self.levels == other.levels
    }

    /// Enable or disable AGC processing.
    ///
    /// Use this to enable or disable AGC processing.
    /// Useful for comparing processed and unprocessed audio or for disabling/enabling AGC.
    pub fn set_enabled(&mut self, enabled: bool)
        ensures
            *final(self) == (AutomaticGainControl { is_enabled: enabled, ..*old(self) }),
    {
        self.is_enabled = enabled;
    }

    /// Set the floor value for the AGC
    ///
    /// This method sets the floor value for the AGC. The floor value is the minimum
    /// gain that the AGC will allow. The gain will not drop below this value.
    ///
    /// Passing `None` will disable the floor value (setting it to silence), allowing the
    /// AGC gain to drop to very low levels.
    pub fn set_floor(&mut self, floor: Option<F>)
        ensures
            *final(self) == (AutomaticGainControl {
                floor: match floor {
                    Some(floor) => floor,
                    None => old(self).levels.silence,
                },
                ..*old(self)
            }),
    {
        self.floor = match floor {
            Some(floor) => floor,
            None => self.levels.silence,
        };
    }

    /// Returns an immutable reference to the inner source.
    pub fn inner(&self) -> (r: &I)
        ensures
            *r == self.input,
    {
        &self.input
    }

    /// Returns a mutable reference to the inner source.
    pub fn inner_mut(&mut self) -> (r: &mut I)
        ensures
            *r == old(self).input,
            *final(self) == (AutomaticGainControl { input: *final(r), ..*old(self) }),
    {
        &mut self.input
    }

    /// Notices whether a span with other parameters has begun, so that the control has to start
    /// over.
    pub fn detect_span(&mut self) -> (r: bool)
        ensures
            r <==> !old(self).span.agrees_with(old(self).input),
            r <==> old(self).span.last_sample_rate@ != old(self).input.rate()@ || old(
                self,
            ).span.last_channels@ != old(self).input.channel_count()@,
            final(self).span.last_sample_rate == old(self).input.rate(),
            final(self).span.last_channels == old(self).input.channel_count(),
            *final(self) == (AutomaticGainControl { span: final(self).span, ..*old(self) }),
    {
        let detection: SpanDetection = self.span.advance(&self.input);
        detection.at_span_boundary && detection.parameters_changed
    }

    /// Starts over, with the release coefficient for a new sample rate. Attack and release
    /// durations that were adjusted since are overwritten with those of construction.
    pub fn start_over(&mut self, release_coefficient: F)
        ensures
            final(self).starts_over(release_coefficient),
            final(self).has_same_settings(*old(self)),
            final(self).input == old(self).input,
            final(self).span == old(self).span,
            final(self).slow_down_state == old(self).slow_down_state,
    {
        // Recalculate coefficients for new sample rate
        self.release_coefficient = release_coefficient;
        // Reset RMS window to avoid mixing samples from different parameter sets
        self.rms_window = rms_window(self.levels.silence);
        self.peak_level = self.levels.initial_peak;
        self.current_gain = self.levels.unity;
        self.attack_duration = self.initial_attack_duration;
        self.release_duration = self.initial_release_duration;
    }

    /// Adjusts how quickly the gain increases.
    pub fn set_attack_duration(&mut self, attack_duration: F)
        ensures
            *final(self) == (AutomaticGainControl { attack_duration, ..*old(self) }),
    {
        self.attack_duration = attack_duration;
    }

    /// Adjusts how quickly the gain decreases.
    pub fn set_release_duration(&mut self, release_duration: F)
        ensures
            *final(self) == (AutomaticGainControl { release_duration, ..*old(self) }),
    {
        self.release_duration = release_duration;
    }

    /// Takes the next sample from the source. A sample that is to be processed is counted.
    pub fn next(&mut self) -> (r: Controlled<I::Item>)
        requires
            old(self).is_enabled && old(self).input.upcoming(0) is Some ==> old(
                self,
            ).slow_down_state.wf(),
        ensures
            old(self).wf() ==> final(self).wf(),
            r is End <==> old(self).input.upcoming(0) is None,
            r is PassThrough <==> old(self).input.upcoming(0) is Some && !old(self).is_enabled,
            r matches Controlled::PassThrough(sample) ==> old(self).input.upcoming(0) == Some(
                sample,
            ) && final(self).slow_down_state == old(self).slow_down_state,
            r matches Controlled::Process { sample, at_block_start } ==> {
                &&& old(self).input.upcoming(0) == Some(sample)
                &&& final(self).slow_down_state.sample_counter == (
                old(self).slow_down_state.sample_counter + 1)
                    % old(self).slow_down_state.block_size as int
                &&& at_block_start <==> final(self).slow_down_state.sample_counter == 0
                &&& final(self).slow_down_state.block_size == old(self).slow_down_state.block_size
                &&& final(self).slow_down_state.slowdown_factor
                    == old(self).slow_down_state.slowdown_factor
            },
            r is End ==> final(self).slow_down_state == old(self).slow_down_state,
            forall|n: nat| #[trigger]
                final(self).input.upcoming(n) == old(self).input.upcoming(n + 1),
            *final(self) == (AutomaticGainControl {
                input: final(self).input,
                slow_down_state: final(self).slow_down_state,
                ..*old(self)
            }),
    {
        match self.input.next() {
            Some(sample) => {
                if self.is_enabled {
                    // Increment the sample counter
                    self.slow_down_state.increment_sample_counter();
                    let at_block_start: bool = self.slow_down_state.is_at_block_start();
                    Controlled::Process { sample, at_block_start }
                } else {
                    Controlled::PassThrough(sample)
                }
            },
            None => Controlled::End,
        }
    }

    /// The length of the current span, in samples, where it is known.
    pub fn current_span_len(&self) -> (r: Option<usize>)
        ensures
            r == self.input.span_len(),
    {
        self.input.current_span_len()
    }

    /// The number of channels in the current span.
    pub fn channels(&self) -> (r: ChannelCount)
        ensures
            r == self.input.channel_count(),
    {
        self.input.channels()
    }

    /// The sample rate of the current span.
    pub fn sample_rate(&self) -> (r: SampleRate)
        ensures
            r == self.input.rate(),
    {
        self.input.sample_rate()
    }

    /// Seeks to `pos`. Whether the parameters are others there is noticed with the next sample.
    pub fn try_seek(&mut self, pos: Duration) -> (r: Result<(), I::SeekError>)
        ensures
            (final(self).input, r) == old(self).input.seeked(pos),
            *final(self) == (AutomaticGainControl { input: final(self).input, ..*old(self) }),
    {
        self.input.try_seek(pos)
    }

    /// The time that the whole source takes, where it is known.
    pub fn total_duration(&self) -> (r: Option<Duration>)
        ensures
            r == self.input.duration(),
    {
        self.input.total_duration()
    }
}

impl<I: Source, F: Copy> AutomaticGainControl<I, F> {
    /// A control that starts over has forgotten every sample: each of the 1024 slots of its window is
    /// silent, whatever was in it, and gain, peak and durations are those of a new one.
    pub proof fn law_starting_over_forgets(self, release_coefficient: F, i: int)
        requires
            self.starts_over(release_coefficient),
            0 <= i < 1024,
        ensures
            self.rms_window.window().len() == 1024,
            self.rms_window.window()[i] == self.levels.silence,
            self.rms_window.sum() == self.levels.silence,
            self.current_gain == self.levels.unity,
            self.peak_level == self.levels.initial_peak,
            self.release_coefficient == release_coefficient,
            self.attack_duration == self.initial_attack_duration,
            self.release_duration == self.initial_release_duration,
    {
    }

    /// Two controls that start over with the same coefficient and have the same settings do not
    /// differ in anything that is computed with.
    pub proof fn law_controls_that_start_over_are_alike(a: Self, b: Self, release_coefficient: F)
        requires
            a.starts_over(release_coefficient),
            b.starts_over(release_coefficient),
            a.has_same_settings(b),
        ensures
            a.target_level == b.target_level,
            a.floor == b.floor,
            a.absolute_max_gain == b.absolute_max_gain,
            a.peak_tracking_window == b.peak_tracking_window,
            a.current_gain == b.current_gain,
            a.attack_duration == b.attack_duration,
            a.release_duration == b.release_duration,
            a.peak_level == b.peak_level,
            a.release_coefficient == b.release_coefficient,
            a.rms_window.window() == b.rms_window.window(),
            a.rms_window.sum() == b.rms_window.sum(),
            a.is_enabled == b.is_enabled,
            a.levels == b.levels,
    {
    }
}

} // verus!
