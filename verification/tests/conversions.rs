use rodio::common::{
    ChannelCount, FrameCount, InFrameCount, InSamples, OutFrameCount, OutSamples, SampleRate,
};
use rodio::conversions::sample_rate::buffer::{Input, LimitLength, Output};
use rodio::conversions::sample_rate::rubato::{
    fft_input_chunk_size, NextSample, ResampleInner, ResamplerCreationError, RubatoResample,
};
use rodio::source::resample::rubato as source_rubato;
use rodio::source::Source;
use rodio::time::Duration;

/// A source that plays its samples once.
struct Fixed {
    samples: Vec<i32>,
    pos: usize,
    channels: u16,
    span: Option<usize>,
}

impl Fixed {
    fn new(samples: &[i32], channels: u16) -> Fixed {
        Fixed {
            samples: samples.to_vec(),
            pos: 0,
            channels,
            span: None,
        }
    }
}

impl Source for Fixed {
    type Item = i32;
    type SeekError = ();

    fn next(&mut self) -> Option<i32> {
        let sample = self.samples.get(self.pos).copied();
        self.pos += 1;
        sample
    }

    fn current_span_len(&self) -> Option<usize> {
        self.span
    }

    fn channels(&self) -> ChannelCount {
        ChannelCount::new(self.channels).unwrap()
    }

    fn sample_rate(&self) -> SampleRate {
        SampleRate::new(44_100).unwrap()
    }

    fn total_duration(&self) -> Option<Duration> {
        None
    }

    fn is_exhausted(&self) -> bool {
        self.pos >= self.samples.len()
    }

    fn try_seek(&mut self, _: Duration) -> Result<(), ()> {
        Err(())
    }
}

fn rate(rate: u32) -> SampleRate {
    SampleRate::new(rate).unwrap()
}

fn stereo() -> ChannelCount {
    ChannelCount::new(2).unwrap()
}

fn converter(samples: &[i32], channels: u16, delay: usize) -> RubatoResample<Fixed, &'static str> {
    let input = Fixed::new(samples, channels);
    let channels = input.channels();
    RubatoResample::new_from(
        input,
        "resampler",
        InFrameCount(4),
        FrameCount(4),
        channels,
        rate(44_100),
        OutFrameCount(delay),
        0,
    )
}

#[test]
fn fft_chunk_size_is_a_multiple_of_the_reduced_source_rate() {
    // 44100 / gcd(48000, 44100) = 147
    assert_eq!(fft_input_chunk_size(rate(48_000), rate(44_100), 1024), 1029);
    assert_eq!(fft_input_chunk_size(rate(48_000), rate(44_100), 1029), 1176);
    assert_eq!(fft_input_chunk_size(rate(96_000), rate(48_000), 3), 4);
}

#[test]
fn both_ways_to_find_the_fft_chunk_size_agree() {
    for (target, source) in [(48_000, 44_100), (44_100, 48_000), (8_000, 7), (11, 22)] {
        for chunk in [0, 1, 21, 22, 1024] {
            assert_eq!(
                fft_input_chunk_size(rate(target), rate(source), chunk),
                source_rubato::fft_input_chunk_size(rate(target), rate(source), chunk),
            );
        }
    }
}

#[test]
fn fft_chunks_scale_without_a_remainder() {
    let chunk = fft_input_chunk_size(rate(48_000), rate(44_100), 1024);
    assert_eq!(chunk * 48_000 % 44_100, 0);
    assert_eq!(chunk * 48_000 / 44_100, 7 * 160);
}

#[test]
fn failing_to_create_a_resampler_is_an_error() {
    let e: ResamplerCreationError = rubato::ResamplerConstructionError::InvalidRatio(-1.0).into();
    assert!(matches!(
        e.0,
        rubato::ResamplerConstructionError::InvalidRatio(_)
    ));
}

#[test]
fn input_gathers_samples() {
    let mut input = Input::new(InSamples(3), 0);
    assert_eq!(input.as_slice(), &[0, 0, 0]);
    input.push(5);
    input.push(6);
    assert_eq!(input.len(), InSamples(2));
    assert_eq!(input.as_slice(), &[5, 6, 0]);
    input.clear();
    assert_eq!(input.len(), InSamples(0));
    input.push(7);
    assert_eq!(input.as_slice(), &[7, 6, 0]);
}

#[test]
fn input_refills_until_the_source_has_no_more() {
    let mut source = Fixed::new(&[1, 2, 3, 4, 5], 1);
    let mut input = Input::new(InSamples(4), 0);
    input.refill(&mut source, 3);
    assert_eq!(input.len(), InSamples(3));
    assert_eq!(input.as_slice(), &[1, 2, 3, 0]);
    input.refill(&mut source, 4);
    assert_eq!(input.len(), InSamples(2));
    assert_eq!(input.as_slice(), &[4, 5, 3, 0]);
}

#[test]
fn output_is_read_from_start_to_end() {
    let mut output = Output::new(rate(44_100), stereo(), FrameCount(4), 0);
    assert_eq!(output.capacity(), FrameCount(4));
    assert!(output.is_empty());
    output.reset().copy_from_slice(&[1, 2, 3, 4, 5, 6, 7, 8]);
    output.set_end(OutFrameCount(3));
    output.set_start(OutFrameCount(1));
    assert_eq!(output.current_span_len(), 4);
    assert_eq!(output.len(), OutSamples(4));
    let mut read = Vec::new();
    while let Some(sample) = output.next() {
        read.push(sample);
    }
    assert_eq!(read, [3, 4, 5, 6]);
    assert!(output.is_empty());
    assert_eq!(output.next(), None);
    assert_eq!(output.current_span_len(), 4);
    output.reset();
    assert_eq!(output.current_span_len(), 0);
    assert_eq!(output.channels().get(), 2);
    assert_eq!(output.source_rate().get(), 44_100);
}

#[test]
fn long_buffers_are_shown_by_their_ends() {
    assert_eq!(LimitLength::of(0), LimitLength::Nothing);
    assert_eq!(LimitLength::of(1), LimitLength::Everything);
    assert_eq!(LimitLength::of(7), LimitLength::Everything);
    let ends = |hidden| LimitLength::Ends {
        head: 3,
        hidden,
        tail: 3,
    };
    assert_eq!(LimitLength::of(8), ends(2));
    assert_eq!(LimitLength::of(100), ends(94));
}

#[test]
fn output_delay_leaves_the_frame_of_the_first_input() {
    assert_eq!(RubatoResample::<Fixed, ()>::output_delay(0), OutFrameCount(0));
    assert_eq!(RubatoResample::<Fixed, ()>::output_delay(1), OutFrameCount(0));
    assert_eq!(RubatoResample::<Fixed, ()>::output_delay(10), OutFrameCount(9));
}

#[test]
fn chunks_are_gathered_and_handed_on() {
    let mut core = converter(&[1, 2, 3, 4, 5, 6], 2, 1);
    let NextSample::Process(chunk) = core.next_sample(InFrameCount(2)) else {
        panic!("a chunk is due")
    };
    assert_eq!(chunk.frames_in, InFrameCount(2));
    assert_eq!(chunk.partial_len, None);
    assert_eq!(&core.input_buffer.as_slice()[..4], &[1, 2, 3, 4]);
    assert_eq!(core.pos_in_current_span, InSamples(4));

    // Three frames come out where two are expected; the first is delay.
    core.output.reset()[..6].copy_from_slice(&[10, 20, 30, 40, 50, 60]);
    assert_eq!(core.accept_chunk(OutFrameCount(2), OutFrameCount(3)), Some(()));
    assert_eq!(core.output_delay_remaining, OutFrameCount(0));
    assert_eq!(core.in_resampler_state, OutFrameCount(1));
    assert!(core.output_has_samples());
    assert_eq!(core.span_length(), Some(2));
    for expected in [30, 40] {
        let NextSample::Sample(sample) = core.next_sample(InFrameCount(2)) else {
            panic!("a sample is due")
        };
        assert_eq!(sample, expected);
    }

    // The last frame of input is a partial chunk.
    let NextSample::Process(chunk) = core.next_sample(InFrameCount(2)) else {
        panic!("a chunk is due")
    };
    assert_eq!(chunk.frames_in, InFrameCount(1));
    assert_eq!(chunk.partial_len, Some(1));
    core.output.reset()[..4].copy_from_slice(&[1, 2, 3, 4]);
    assert_eq!(core.accept_chunk(OutFrameCount(1), OutFrameCount(2)), Some(()));
    assert_eq!(core.in_resampler_state, OutFrameCount(0));
    assert_eq!(core.span_length(), Some(4));
    for expected in [1, 2, 3, 4] {
        let NextSample::Sample(sample) = core.next_sample(InFrameCount(2)) else {
            panic!("a sample is due")
        };
        assert_eq!(sample, expected);
    }
    assert!(matches!(
        core.next_sample(InFrameCount(2)),
        NextSample::Finished
    ));
    assert_eq!(core.span_length(), Some(0));
}

#[test]
fn as_much_sound_comes_out_as_went_in() {
    let mut core = converter(&[1, 2, 3, 4, 5, 6, 7], 1, 2);
    let mut frames = 0;
    loop {
        match core.next_sample(InFrameCount(3)) {
            NextSample::Sample(_) => frames += 1,
            NextSample::Finished => break,
            NextSample::Process(chunk) => {
                // Three frames come out of each chunk, whatever went in.
                core.output.reset();
                let expected = OutFrameCount(chunk.frames_in.raw());
                assert_eq!(core.accept_chunk(expected, OutFrameCount(3)), Some(()));
            }
        }
    }
    assert_eq!(frames, 7);
}

#[test]
fn chunks_end_with_the_span() {
    let mut core = converter(&[1, 2, 3, 4, 5, 6], 2, 0);
    core.input.span = Some(5);
    assert_eq!(core.span_length(), Some(2));
    let chunk = core.resample_chunk(InFrameCount(4)).unwrap();
    assert_eq!(chunk.frames_in, InFrameCount(2));
    assert_eq!(chunk.partial_len, Some(2));
    assert_eq!(core.input.pos, 4);
}

#[test]
fn nothing_out_of_an_ended_input_ends_the_stream() {
    let mut core = converter(&[1], 1, 0);
    assert!(core.resample_chunk(InFrameCount(2)).is_some());
    assert_eq!(core.accept_chunk(OutFrameCount(1), OutFrameCount(0)), None);
    assert!(!core.resampler_empty());
}

#[test]
fn resetting_forgets_output_and_expects_the_delay_again() {
    let mut core = converter(&[1, 2, 3], 1, 2);
    assert!(core.resample_chunk(InFrameCount(3)).is_some());
    core.output.reset();
    assert_eq!(core.accept_chunk(OutFrameCount(3), OutFrameCount(3)), Some(()));
    assert!(core.output_has_samples());
    core.reset(5);
    assert!(!core.output_has_samples());
    assert_eq!(core.pos_in_current_span, InSamples(0));
    assert_eq!(core.output_delay_remaining, OutFrameCount(4));
    assert_eq!(core.resampler, "resampler");
}

#[test]
fn the_source_can_be_got_back() {
    let inner: ResampleInner<Fixed, (), ()> = ResampleInner::Passthrough {
        source: Fixed::new(&[9], 1),
        input_span_pos: InSamples(0),
        channels: stereo(),
        source_rate: rate(44_100),
    };
    assert_eq!(inner.input().samples, [9]);
    assert_eq!(inner.into_inner().samples, [9]);
    let poly: ResampleInner<Fixed, &str, ()> = ResampleInner::Poly(converter(&[8], 1, 0));
    assert_eq!(poly.input().samples, [8]);
    let sinc: ResampleInner<Fixed, &str, ()> = ResampleInner::Sinc(converter(&[7], 1, 0));
    assert_eq!(sinc.into_inner().samples, [7]);
    let fft: ResampleInner<Fixed, (), &str> = ResampleInner::Fft(converter(&[6], 1, 0));
    assert_eq!(fft.input().samples, [6]);
}

#[test]
fn sound_is_handed_on_in_order_without_its_delay() {
    // Three frames of delay, and chunks of two frames of which all but the last are sound.
    let mut converter = converter(&[0; 10], 2, 3);
    let mut written = 0;
    let mut out = Vec::new();
    loop {
        match converter.next_sample(InFrameCount(2)) {
            NextSample::Sample(sample) => out.push(sample),
            NextSample::Finished => break,
            NextSample::Process(chunk) => {
                for slot in &mut converter.output.reset()[..4] {
                    *slot = written;
                    written += 1;
                }
                let expected = OutFrameCount(chunk.frames_in.raw());
                assert_eq!(converter.accept_chunk(expected, OutFrameCount(2)), Some(()));
            }
        }
    }
    // Five frames went in. The delay is that of one whole chunk and half of another.
    assert_eq!(out, (6..16).collect::<Vec<i32>>());
}
