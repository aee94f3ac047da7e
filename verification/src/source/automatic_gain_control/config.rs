//! Settings of the automatic gain control.
use crate::time::Duration;
use vstd::prelude::*;

verus! {

/// A factor that levels are multiplied by, in thousandths.
#[derive(Debug, Clone, Copy, PartialEq, Eq, Structural)]
pub struct Gain {
    pub thousandths: u32,
}

/// Settings for the Automatic Gain Control (AGC).
///
/// This struct contains parameters that define how the AGC will function,
/// allowing users to customise its behaviour.
#[derive(Debug, Clone, Copy, PartialEq, Eq, Structural)]
pub struct AutomaticGainControlSettings {
    /// The desired output level that the AGC tries to maintain.
    /// A gain of one means no change to the original level.
    pub target_level: Gain,
    /// Time constant for gain increases (how quickly the AGC responds to level increases).
    /// Longer durations result in slower, more gradual gain increases.
    pub attack_time: Duration,
    /// Time constant for gain decreases (how quickly the AGC responds to level decreases).
    /// Shorter durations allow for faster response to sudden loud signals.
    pub release_time: Duration,
    /// Maximum allowable gain multiplication to prevent excessive amplification.
    /// This acts as a safety limit to avoid distortion from over-amplification.
    pub absolute_max_gain: Gain,
    /// Duration of the peak tracking smoothing window.
    /// Controls how much peak level measurements are smoothed before being used for gain calculation.
    /// Larger values provide more stable peak detection but add latency to peak tracking.
    /// Smaller values respond faster to sudden peaks but may allow more transient clipping.
    pub peak_tracking_window: Duration,
    /// The minimum output level (gain floor) that the AGC will not go below.
    /// A gain of one preserves loud passages at source level without additional amplification
    /// (amplification only). A gain of zero allows unlimited amplification (pure AGC behaviour).
    pub floor: Gain,
}

impl AutomaticGainControlSettings {
    /// The levels and times of the settings are these: levels in thousandths, times in
    /// microseconds.
    pub open spec fn is(
        &self,
        target_level: int,
        attack_time: int,
        release_time: int,
        absolute_max_gain: int,
        peak_tracking_window: int,
        floor: int,
    ) -> bool {
        &&& self.target_level.thousandths == target_level
        &&& self.attack_time@ == attack_time * 1_000
        &&& self.release_time@ == release_time * 1_000
        &&& self.absolute_max_gain.thousandths == absolute_max_gain
        &&& self.peak_tracking_window@ == peak_tracking_window * 1_000
        &&& self.floor.thousandths == floor
    }

    /// Returns a preset optimised for music content.
    ///
    /// Values tuned through empirical testing and are intended as good defaults for general music processing.
    pub fn music_preset() -> (r: AutomaticGainControlSettings)
        ensures
            r.is(1_000, 500_000, 500, 7_000, 10_000, 1_000),
            r.target_level.thousandths == 1_000,
            r.attack_time@ == 500_000_000,
            r.release_time@ == 500_000,
            r.absolute_max_gain.thousandths == 7_000,
            r.peak_tracking_window@ == 10_000_000,
            r.floor.thousandths == 1_000,
    {
        AutomaticGainControlSettings {
            target_level: Gain { thousandths: 1_000 },
            attack_time: Duration::from_millis(500),
            release_time: Duration::from_micros(500),
            absolute_max_gain: Gain { thousandths: 7_000 },
            peak_tracking_window: Duration::from_millis(10),
            floor: Gain { thousandths: 1_000 },
        }
    }

    /// Returns a preset optimised for speech content.
    ///
    /// Values tuned through empirical testing and are intended as good defaults for general speech processing.
    pub fn speech_preset() -> (r: AutomaticGainControlSettings)
        ensures
            r.is(1_000, 250_000, 50, 7_000, 10_000, 0),
            r.target_level.thousandths == 1_000,
            r.attack_time@ == 250_000_000,
            r.release_time@ == 50_000,
            r.absolute_max_gain.thousandths == 7_000,
            r.peak_tracking_window@ == 10_000_000,
            r.floor.thousandths == 0,
    {
        AutomaticGainControlSettings {
            target_level: Gain { thousandths: 1_000 },
            attack_time: Duration::from_millis(250),
            release_time: Duration::from_micros(50),
            absolute_max_gain: Gain { thousandths: 7_000 },
            peak_tracking_window: Duration::from_millis(10),
            floor: Gain { thousandths: 0 },
        }
    }
}

impl Default for AutomaticGainControlSettings {
    /// Music preset is the default
    fn default() -> (r: AutomaticGainControlSettings)
        ensures
            r.is(1_000, 500_000, 500, 7_000, 10_000, 1_000),
    {
        AutomaticGainControlSettings::music_preset()
    }
}

} // verus!
