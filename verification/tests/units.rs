use rodio::common::{
    use_required_traits, BitDepth, ChannelCount, FrameCount, InFrameCount, InSamples,
    OutFrameCount, OutSamples, SampleCount, SampleRate, DEFAULT_SAMPLE_RATE,
};
use rodio::math::{gcd, next_power_of_two};
use rodio::time::Duration;

fn channels(count: u16) -> ChannelCount {
    ChannelCount::new(count).unwrap()
}

#[test]
fn rates_counts_and_depths_are_never_zero() {
    assert!(SampleRate::new(0).is_none());
    assert!(ChannelCount::new(0).is_none());
    assert!(BitDepth::new(0).is_none());
    assert_eq!(SampleRate::new(DEFAULT_SAMPLE_RATE).unwrap().get(), 48_000);
    assert_eq!(channels(65_535).get(), 65_535);
    assert_eq!(BitDepth::new(24).unwrap().get(), 24);
}

#[test]
fn frames_survive_being_counted_in_samples() {
    let stereo = channels(2);
    assert_eq!(InFrameCount(21).samples(stereo), InSamples(42));
    assert_eq!(InFrameCount(21).samples(stereo).frames(stereo), InFrameCount(21));
    assert_eq!(OutFrameCount(7).samples(channels(6)), OutSamples(42));
    assert_eq!(FrameCount(7).samples(channels(6)), SampleCount(42));
}

#[test]
fn samples_round_down_to_whole_frames() {
    assert_eq!(InSamples(7).frames(channels(2)), InFrameCount(3));
    assert_eq!(OutSamples(5).frames(channels(6)), OutFrameCount(0));
    assert_eq!(SampleCount(12).frames(channels(6)), FrameCount(2));
}

#[test]
fn counts_add_and_subtract() {
    assert_eq!(InSamples(3) + InSamples(4), InSamples(7));
    assert_eq!(InSamples(3) + 4usize, InSamples(7));
    assert_eq!(OutFrameCount(9) - OutFrameCount(4), OutFrameCount(5));
    assert_eq!(OutFrameCount(4).saturating_sub(OutFrameCount(9)), OutFrameCount::zero());
    let mut count = FrameCount(10);
    count.add_assign(FrameCount(5));
    assert_eq!(count.raw(), 15);
    count.sub_assign(FrameCount(6));
    assert_eq!(count, FrameCount(9));
    *count.raw_mut() = 1;
    assert_eq!(count.count(), FrameCount(1));
    assert_eq!(InSamples(8).count(), SampleCount(8));
    assert_eq!(InFrameCount::max_value().raw(), usize::MAX);
}

#[test]
fn counts_are_ordered() {
    assert!(OutFrameCount(3) < OutFrameCount(4));
    assert_eq!(OutSamples(3).max(OutSamples(9)), OutSamples(9));
}

#[derive(Debug, Clone)]
struct Failure;

impl std::fmt::Display for Failure {
    fn fmt(&self, f: &mut std::fmt::Formatter<'_>) -> std::fmt::Result {
        f.write_str("failure")
    }
}

#[test]
fn errors_are_fit_for_dynamic_error_handling() {
    use_required_traits::<Failure>();
    rodio::conversions::sample_rate::types::use_required_traits::<std::num::ParseIntError>();
}

#[test]
fn greatest_common_divisors() {
    assert_eq!(gcd(48_000, 44_100), 300);
    assert_eq!(gcd(44_100, 48_000), 300);
    assert_eq!(gcd(7, 13), 1);
    assert_eq!(gcd(0, 5), 5);
    assert_eq!(gcd(5, 0), 5);
}

#[test]
fn powers_of_two_round_up() {
    assert_eq!(next_power_of_two(0), 1);
    assert_eq!(next_power_of_two(1), 1);
    assert_eq!(next_power_of_two(882), 1024);
    assert_eq!(next_power_of_two(1024), 1024);
    assert_eq!(next_power_of_two(1025), 2048);
    assert_eq!(next_power_of_two(usize::MAX / 2 + 1), usize::MAX / 2 + 1);
}

#[test]
fn durations_carry_nanoseconds() {
    let duration = Duration::new(1, 2_500_000_000);
    assert_eq!(duration.as_secs(), 3);
    assert_eq!(duration.subsec_nanos(), 500_000_000);
    assert_eq!(duration.as_millis(), 3_500);
    assert_eq!(duration, Duration::from_millis(3_500));
    assert_eq!(Duration::from_micros(1_500_000), Duration::new(1, 500_000_000));
    assert!(Duration::zero().is_zero());
    assert!(!Duration::from_micros(1).is_zero());
    assert_eq!(Duration::from_micros(1).shorter(Duration::zero()), Duration::zero());
    assert_eq!(Duration::new(2, 0).shorter(Duration::new(1, 999)), Duration::new(1, 999));
}
