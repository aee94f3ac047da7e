use rodio::common::{ChannelCount, SampleRate};
use rodio::source::agc::{
    automatic_gain_control, initial_levels, power_of_two, rms_window, AutomaticGainControl, Controlled, Levels,
    RMS_WINDOW_SIZE,
};
use rodio::source::automatic_gain_control::config::AutomaticGainControlSettings;
use rodio::source::automatic_gain_control::rms::CircularBufferRMS;
use rodio::source::automatic_gain_control::slowdown::SlowDownState;
use rodio::source::span::SpanTracker;
use rodio::source::Source;
use rodio::time::Duration;

/// A source that counts up, and changes its sample rate after a while.
struct Counter {
    next: i32,
    end: i32,
    rate: u32,
    channels: u16,
}

impl Source for Counter {
    type Item = i32;
    type SeekError = ();

    fn next(&mut self) -> Option<i32> {
        if self.next == self.end {
            return None;
        }
        self.next += 1;
        Some(self.next - 1)
    }

    fn current_span_len(&self) -> Option<usize> {
        Some(12)
    }

    fn channels(&self) -> ChannelCount {
        ChannelCount::new(self.channels).unwrap()
    }

    fn sample_rate(&self) -> SampleRate {
        SampleRate::new(self.rate).unwrap()
    }

    fn total_duration(&self) -> Option<Duration> {
        Some(Duration::from_millis(5))
    }

    fn is_exhausted(&self) -> bool {
        self.next == self.end
    }

    fn try_seek(&mut self, pos: Duration) -> Result<(), ()> {
        let target = pos.as_secs() as i32;
        if target > self.end {
            return Err(());
        }
        self.next = target;
        Ok(())
    }
}

fn control() -> AutomaticGainControl<Counter, f32> {
    let input = Counter {
        next: 0,
        end: 10,
        rate: 2_000,
        channels: 2,
    };
    let levels = Levels {
        silence: 0.0,
        unity: 1.0,
        initial_peak: 0.7,
    };
    automatic_gain_control(
        input,
        1.0,
        0.5,
        0.0005,
        7.0,
        Duration::from_millis(10),
        0.25,
        levels,
    )
}

#[test]
fn presets() {
    let music = AutomaticGainControlSettings::music_preset();
    assert_eq!(music.target_level.thousandths, 1_000);
    assert_eq!(music.attack_time, Duration::from_millis(500));
    assert_eq!(music.release_time, Duration::from_micros(500));
    assert_eq!(music.absolute_max_gain.thousandths, 7_000);
    assert_eq!(music.peak_tracking_window, Duration::from_millis(10));
    assert_eq!(music.floor.thousandths, 1_000);
    assert_eq!(AutomaticGainControlSettings::default(), music);
    let speech = AutomaticGainControlSettings::speech_preset();
    assert_eq!(speech.attack_time, Duration::from_millis(250));
    assert_eq!(speech.release_time, Duration::from_micros(50));
    assert_eq!(speech.floor.thousandths, 0);
    let default = rodio::source::agc::AutomaticGainControlSettings::default();
    assert_eq!(default.target_level.thousandths, 1_000);
    assert_eq!(default.attack_time, Duration::from_millis(500));
    assert_eq!(default.release_time, Duration::from_micros(500));
    assert_eq!(default.absolute_max_gain.thousandths, 7_000);
    assert_eq!(default.peak_tracking_window, Duration::from_millis(10));
}

#[test]
fn controls_start_with_these_levels() {
    let levels = initial_levels();
    assert_eq!(levels.silence.thousandths, 0);
    assert_eq!(levels.unity.thousandths, 1_000);
    assert_eq!(levels.initial_peak.thousandths, 700);
}

#[test]
fn window_sizes_are_powers_of_two() {
    let size = |rate, millis| {
        CircularBufferRMS::<i32>::calculate_rms_buffer_size(
            SampleRate::new(rate).unwrap(),
            Duration::from_millis(millis),
        )
    };
    // 882 samples
    assert_eq!(size(44_100, 20), 1024);
    assert_eq!(size(1_000, 1), 1);
    assert_eq!(size(48_000, 0), 1);
    // 1.001 samples are two.
    assert_eq!(size(1_001, 1), 2);
    assert_eq!(size(64_000, 16), 1024);
    assert_eq!(size(64_001, 16), 2048);
    let window =
        CircularBufferRMS::new(SampleRate::new(44_100).unwrap(), Duration::from_millis(20), 0);
    assert_eq!(window.len(), 1024);
    assert_eq!(power_of_two(RMS_WINDOW_SIZE), 1024);
    assert_eq!(rms_window(0).len(), 1024);
}

#[test]
fn the_window_holds_the_last_values() {
    let mut window = CircularBufferRMS::with_size(4, 0);
    let displaced: Vec<i32> = (1..=10).map(|value| window.push(value)).collect();
    assert_eq!(displaced, [0, 0, 0, 0, 1, 2, 3, 4, 5, 6]);
}

#[test]
fn the_running_sum_is_that_of_the_window() {
    let mut window = CircularBufferRMS::with_size(4, 0);
    for value in [3, -1, 4, 1, -5, 9] {
        let displaced = window.push(value);
        let sum = window.sum_of_squares() - displaced * displaced + value * value;
        window.set_sum_of_squares(sum);
    }
    assert_eq!(window.sum_of_squares(), 16 + 1 + 25 + 81);
}

#[test]
fn blocks_last_two_milliseconds() {
    let mut state = SlowDownState::new(SampleRate::new(44_100).unwrap(), 0);
    assert_eq!(state.block_size, 88);
    assert!(state.is_at_block_start());
    for _ in 0..87 {
        state.increment_sample_counter();
        assert!(!state.is_at_block_start());
    }
    state.increment_sample_counter();
    assert!(state.is_at_block_start());
}

#[test]
fn changed_parameters_are_noticed_once() {
    let mut input = Counter {
        next: 0,
        end: 9,
        rate: 8_000,
        channels: 1,
    };
    let mut span = SpanTracker::new(input.sample_rate(), input.channels());
    assert!(!span.advance(&input).parameters_changed);
    input.channels = 2;
    let detection = span.advance(&input);
    assert!(detection.at_span_boundary && detection.parameters_changed);
    assert!(!span.advance(&input).at_span_boundary);
    input.rate = 9_000;
    assert!(span.advance(&input).parameters_changed);
}

#[test]
fn a_control_starts_neutral() {
    let control = control();
    assert_eq!(control.floor, 0.0);
    assert_eq!(control.current_gain, 1.0);
    assert_eq!(control.peak_level, 0.7);
    assert_eq!(control.release_coefficient, 0.25);
    assert!(control.is_enabled);
    assert_eq!(control.slow_down_state.block_size, 4);
    assert_eq!(control.rms_window.len(), 1024);
    assert_eq!(control.current_span_len(), Some(12));
    assert_eq!(control.channels().get(), 2);
    assert_eq!(control.sample_rate().get(), 2_000);
    assert_eq!(control.total_duration(), Some(Duration::from_millis(5)));
}

#[test]
fn a_disabled_control_passes_samples_through() {
    let mut control = control();
    control.set_enabled(false);
    for expected in 0..10 {
        let Controlled::PassThrough(sample) = control.next() else {
            panic!("the control is off")
        };
        assert_eq!(sample, expected);
    }
    assert!(matches!(control.next(), Controlled::End));
    assert_eq!(control.slow_down_state.sample_counter, 0);
}

#[test]
fn an_enabled_control_processes_samples_in_blocks() {
    let mut control = control();
    let mut starts = Vec::new();
    while let Controlled::Process { sample, at_block_start } = control.next() {
        if at_block_start {
            starts.push(sample);
        }
    }
    assert_eq!(starts, [3, 7]);
}

#[test]
fn a_new_rate_starts_over_with_the_constructed_durations() {
    let mut control = control();
    control.set_attack_duration(9.0);
    control.set_release_duration(8.0);
    control.current_gain = 3.0;
    control.peak_level = 0.1;
    control.rms_window.push(5.0);
    control.set_floor(Some(0.5));
    assert!(!control.detect_span());
    control.inner_mut().rate = 4_000;
    assert_eq!(control.inner().rate, 4_000);
    assert!(control.detect_span());
    control.start_over(0.125);
    assert!(!control.detect_span());
    assert_eq!(control.release_coefficient, 0.125);
    assert_eq!(control.current_gain, 1.0);
    assert_eq!(control.peak_level, 0.7);
    assert_eq!(control.attack_duration, 0.5);
    assert_eq!(control.release_duration, 0.0005);
    assert_eq!(control.rms_window.push(1.0), 0.0);
    assert_eq!(control.floor, 0.5);
    // The blocks stay as they were.
    assert_eq!(control.slow_down_state.block_size, 4);
}

#[test]
fn the_floor_can_be_taken_away() {
    let mut control = control();
    control.set_floor(Some(0.25));
    assert_eq!(control.floor, 0.25);
    control.set_floor(None);
    assert_eq!(control.floor, 0.0);
}

#[test]
fn a_control_below_one_kilohertz_can_pass_samples_through() {
    let mut control = control();
    control.slow_down_state.block_size = 0;
    control.set_enabled(false);
    assert!(matches!(control.next(), Controlled::PassThrough(0)));
    control.inner_mut().next = 10;
    control.set_enabled(true);
    assert!(matches!(control.next(), Controlled::End));
}

#[test]
fn seeks_are_passed_on() {
    let mut control = control();
    assert_eq!(control.try_seek(Duration::new(4, 0)), Ok(()));
    assert!(matches!(control.next(), Controlled::Process { sample: 4, .. }));
    assert_eq!(control.try_seek(Duration::new(40, 0)), Err(()));
    assert!(matches!(control.next(), Controlled::Process { sample: 5, .. }));
}

#[test]
fn older_values_have_no_influence() {
    let fill = |values: &[i32]| {
        let mut window = CircularBufferRMS::with_size(4, 0);
        for &value in values {
            let displaced = window.push(value);
            let sum = (window.sum_of_squares() - displaced * displaced) + value * value;
            window.set_sum_of_squares(sum);
        }
        window.sum_of_squares()
    };
    assert_eq!(fill(&[2, 3]), 13);
    assert_eq!(fill(&[9, 8, 7, 1, 2, 3, 4]), fill(&[1, 2, 3, 4]));
}
