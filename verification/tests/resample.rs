use rodio::common::{ChannelCount, SampleRate};
use rodio::source::resample::buffer::Buffer;
use rodio::source::resample::rubato::{
    fft_input_chunk_size, NextSample, ResampleInner, RubatoResample,
};
use rodio::source::{
    move_to_start, overwrite_start, padding_samples_needed, read_into, repeated, Source,
};
use rodio::time::Duration;
use rubato::audioadapter_buffers::direct::InterleavedSlice;
use rubato::Resampler;

/// A source that plays its samples once.
struct Fixed<S> {
    samples: Vec<S>,
    pos: usize,
    channels: u16,
    rate: u32,
}

impl<S: Copy> Source for Fixed<S> {
    type Item = S;
    type SeekError = ();

    fn next(&mut self) -> Option<S> {
        let sample = self.samples.get(self.pos).copied();
        self.pos += 1;
        sample
    }

    fn current_span_len(&self) -> Option<usize> {
        None
    }

    fn channels(&self) -> ChannelCount {
        ChannelCount::new(self.channels).unwrap()
    }

    fn sample_rate(&self) -> SampleRate {
        SampleRate::new(self.rate).unwrap()
    }

    fn total_duration(&self) -> Option<Duration> {
        None
    }

    fn is_exhausted(&self) -> bool {
        self.pos >= self.samples.len()
    }

    fn try_seek(&mut self, _: Duration) -> Result<(), ()> {
        Err(())
    }
}

fn fixed<S: Clone>(samples: &[S], channels: u16) -> Fixed<S> {
    Fixed {
        samples: samples.to_vec(),
        pos: 0,
        channels,
        rate: 48_000,
    }
}

fn resampling(samples: &[i32], channels: u16, delay: usize) -> RubatoResample<Fixed<i32>, ()> {
    RubatoResample::new_from(fixed(samples, channels), (), 4, 4, delay, 0)
}

#[test]
fn buffer_skips_caps_and_drains() {
    let mut buffer = Buffer::new(6, 0);
    assert_eq!(buffer.capacity(), 6);
    assert!(buffer.is_empty());
    buffer.as_mut_slice().copy_from_slice(&[1, 2, 3, 4, 5, 6]);
    buffer.reset(5);
    assert_eq!((buffer.len(), buffer.remaining()), (5, 5));
    buffer.skip(1);
    assert_eq!(buffer.remaining(), 4);
    buffer.cap_to_remaining(2);
    assert_eq!((buffer.len(), buffer.remaining()), (3, 2));
    assert_eq!(buffer.read(), 2);
    assert_eq!(buffer.read(), 3);
    assert!(buffer.is_empty());
    buffer.reset(2);
    buffer.skip(100);
    assert!(buffer.is_empty());
    buffer.reset(2);
    buffer.cap_to_remaining(100);
    assert_eq!(buffer.remaining(), 2);
}

#[test]
fn sample_helpers() {
    let mut source = fixed(&[1, 2, 3], 1);
    let mut buffer = repeated(0, 5);
    assert_eq!(buffer, [0, 0, 0, 0, 0]);
    assert_eq!(read_into(&mut source, &mut buffer, 1, 2), 2);
    assert_eq!(buffer, [0, 1, 2, 0, 0]);
    assert_eq!(source.pos, 2);
    assert_eq!(read_into(&mut source, &mut buffer, 3, 2), 1);
    assert_eq!(buffer, [0, 1, 2, 3, 0]);
    assert_eq!(source.pos, 4);
    move_to_start(&mut buffer, 2, 2);
    assert_eq!(buffer, [2, 3, 2, 3, 0]);
    overwrite_start(&mut buffer, 3, 9);
    assert_eq!(buffer, [9, 9, 9, 3, 0]);
}

#[test]
fn padding_completes_a_frame() {
    let channels = ChannelCount::new(6).unwrap();
    assert_eq!(padding_samples_needed(0, channels), 0);
    assert_eq!(padding_samples_needed(1, channels), 5);
    assert_eq!(padding_samples_needed(5, channels), 1);
    assert_eq!(padding_samples_needed(6, channels), 0);
    assert_eq!(padding_samples_needed(8, channels), 4);
}

#[test]
fn fft_chunk_size_comes_from_the_reduced_ratio() {
    let rate = |rate| SampleRate::new(rate).unwrap();
    // 48000 / 44100 = 160 / 147
    assert_eq!(fft_input_chunk_size(rate(48_000), rate(44_100), 146), 147);
    assert_eq!(fft_input_chunk_size(rate(48_000), rate(44_100), 147), 294);
    assert_eq!(fft_input_chunk_size(rate(48_000), rate(48_000), 16), 17);
}

#[test]
fn delay_compensation_counts_samples() {
    let stereo = ChannelCount::new(2).unwrap();
    assert_eq!(RubatoResample::<Fixed<i32>, ()>::calculate_delay_compensation(0, stereo), 0);
    assert_eq!(RubatoResample::<Fixed<i32>, ()>::calculate_delay_compensation(1, stereo), 0);
    assert_eq!(RubatoResample::<Fixed<i32>, ()>::calculate_delay_compensation(8, stereo), 14);
}

#[test]
fn filling_keeps_what_is_buffered() {
    let mut converter = resampling(&[1, 2, 3, 4, 5, 6, 7], 2, 0);
    converter.fill_input_buffer(2);
    assert_eq!((converter.input_frame_count, converter.real_frames_in_buffer), (2, 2));
    assert_eq!(&converter.input_buffer[..4], &[1, 2, 3, 4]);
    converter.fill_input_buffer(4);
    // The frame that has only one sample does not count.
    assert_eq!((converter.input_frame_count, converter.real_frames_in_buffer), (3, 3));
    assert_eq!(&converter.input_buffer[..6], &[1, 2, 3, 4, 5, 6]);
    assert!(converter.input_exhausted);
}

#[test]
fn silence_flushes_once_the_input_has_ended() {
    let mut converter = resampling(&[], 2, 0);
    converter.fill_input_buffer(3);
    assert!(converter.input_exhausted);
    assert_eq!((converter.input_frame_count, converter.real_frames_in_buffer), (3, 0));
    assert_eq!(&converter.input_buffer[..6], &[0; 6]);
}

#[test]
fn consumed_frames_make_room() {
    let mut converter = resampling(&[1, 2, 3, 4, 5, 6, 7, 8], 2, 0);
    converter.fill_input_buffer(4);
    assert_eq!(converter.consume_input(3, 1), Some(3));
    assert_eq!(converter.input_frame_count, 1);
    assert_eq!(converter.input_samples_consumed, 6);
    assert_eq!(&converter.input_buffer[..2], &[7, 8]);
    // No more is consumed than there is.
    assert_eq!(converter.consume_input(100, 1), Some(4));
    assert_eq!(converter.input_frame_count, 0);
    assert_eq!(converter.total_input_frames, 4);
}

#[test]
fn the_stream_ends_when_nothing_comes_out() {
    let mut converter = resampling(&[1], 1, 0);
    converter.fill_input_buffer(2);
    assert!(converter.input_exhausted);
    assert_eq!(converter.consume_input(1, 0), None);
    assert_eq!(converter.input_frame_count, 1);
}

#[test]
fn delay_is_skipped_and_the_tail_is_capped() {
    let mut converter = resampling(&[1, 2, 3], 1, 3);
    let NextSample::Process { frames, partial_len } = converter.next_sample(4) else {
        panic!("a chunk is due")
    };
    assert_eq!((frames, partial_len), (3, Some(3)));
    converter.output_buffer
        .as_mut_slice()
        .copy_from_slice(&[10, 20, 30, 40]);
    assert_eq!(converter.consume_input(4, 4), Some(3));
    converter.accept_output(4, 1);
    assert_eq!(converter.output_delay_remaining, 0);
    assert_eq!((converter.output_len(), converter.output_remaining()), (3, 1));
    assert!(converter.output_has_samples());
    let NextSample::Sample(sample) = converter.next_sample(4) else {
        panic!("a sample is due")
    };
    assert_eq!(sample, 30);
    assert!(matches!(converter.next_sample(4), NextSample::Finished));
}

#[test]
fn resetting_starts_over() {
    let mut converter = resampling(&[1, 2, 3], 1, 3);
    converter.fill_input_buffer(4);
    converter.consume_input(2, 2);
    converter.accept_output(2, 3);
    converter.reset(2);
    assert_eq!(converter.input_frame_count, 0);
    assert_eq!(converter.total_input_frames, 0);
    assert_eq!(converter.expected_output_samples, 0);
    assert_eq!(converter.output_delay_remaining, 1);
    assert!(!converter.input_exhausted);
    assert!(!converter.output_has_samples());
}

#[test]
fn resampled_source_can_be_got_back() {
    let inner: ResampleInner<Fixed<i32>, (), ()> = ResampleInner::Sinc(resampling(&[4, 5], 1, 0));
    assert_eq!(inner.input().samples, [4, 5]);
    assert_eq!(inner.into_inner().samples, [4, 5]);
    let fft: ResampleInner<Fixed<i32>, (), ()> = ResampleInner::Fft(resampling(&[6], 1, 0));
    assert_eq!(fft.into_inner().samples, [6]);
    let poly: ResampleInner<Fixed<i32>, (), ()> = ResampleInner::Poly(resampling(&[7], 1, 0));
    assert_eq!(poly.input().samples, [7]);
    let none: ResampleInner<Fixed<i32>, (), ()> = ResampleInner::Passthrough {
        source: fixed(&[8], 1),
        input_span_pos: 0,
        channels: ChannelCount::new(1).unwrap(),
        source_rate: SampleRate::new(48_000).unwrap(),
    };
    assert_eq!(none.input().samples, [8]);
}

/// Runs everything through a resampler of `rubato`.
fn resample(samples: &[f32], channels: u16, from: u32, to: u32) -> Vec<f32> {
    let mut source = fixed(samples, channels);
    source.rate = from;
    let ratio = to as f32 / from as f32;
    let resampler = rubato::Async::<f32>::new_poly(
        ratio as f64,
        1.0,
        rubato::PolynomialDegree::Linear,
        64,
        channels as usize,
        rubato::FixedAsync::Output,
    )
    .unwrap();
    let (input_max, output_max) = (resampler.input_frames_max(), resampler.output_frames_max());
    let delay = resampler.output_delay();
    let mut converter = RubatoResample::new_from(source, resampler, input_max, output_max, delay, 0.0);
    let channels = channels as usize;
    let mut out = Vec::new();
    loop {
        let needed = converter.resampler.input_frames_next();
        match converter.next_sample(needed) {
            NextSample::Sample(sample) => out.push(sample),
            NextSample::Finished => return out,
            NextSample::Process { frames, partial_len } => {
                let indexing = partial_len.map(|_| rubato::Indexing {
                    input_offset: 0,
                    output_offset: 0,
                    partial_len,
                    active_channels_mask: None,
                });
                let input = InterleavedSlice::new(&converter.input_buffer, channels, frames).unwrap();
                let room = converter.output_buffer.capacity() / channels;
                let mut output =
                    InterleavedSlice::new_mut(converter.output_buffer.as_mut_slice(), channels, room)
                        .unwrap();
                let (frames_in, frames_out) = converter
                    .resampler
                    .process_into_buffer(&input, &mut output, indexing.as_ref())
                    .unwrap();
                match converter.consume_input(frames_in, frames_out) {
                    None => return out,
                    Some(total) => {
                        let expected = (total as f32 * ratio).ceil() as usize;
                        converter.accept_output(frames_out, expected);
                    }
                }
            }
        }
    }
}

#[test]
fn a_resampler_doubles_the_number_of_frames() {
    let samples: Vec<f32> = (0..1000).map(|n| n as f32 / 1000.0).collect();
    let out = resample(&samples, 1, 24_000, 48_000);
    assert_eq!(out.len(), 2000);
    // A ramp stays a ramp.
    for pair in out[100..1800].windows(2) {
        assert!(pair[1] > pair[0]);
    }
    let out = resample(&samples, 2, 24_000, 48_000);
    assert_eq!(out.len(), 2000);
}

#[test]
fn a_resampler_halves_the_number_of_frames() {
    let samples = vec![0.5f32; 1001];
    let out = resample(&samples, 1, 48_000, 24_000);
    assert_eq!(out.len(), 501);
    assert!((out[100] - 0.5).abs() < 0.01);
}

/// Runs `converter` with a resampler that writes `per_chunk` frames, numbered on from chunk to
/// chunk, whatever it is given.
fn run_numbered(
    mut converter: RubatoResample<Fixed<i32>, ()>,
    per_chunk: usize,
    due: impl Fn(usize) -> usize,
) -> Vec<i32> {
    let mut written = 0;
    let mut out = Vec::new();
    loop {
        match converter.next_sample(4) {
            NextSample::Sample(sample) => out.push(sample),
            NextSample::Finished => {
                assert!(matches!(converter.next_sample(4), NextSample::Finished));
                assert_eq!(converter.total_output_samples, out.len());
                return out;
            }
            NextSample::Process { frames, .. } => {
                let channels = converter.channels.get() as usize;
                for slot in &mut converter.output_buffer.as_mut_slice()[..per_chunk * channels] {
                    *slot = written;
                    written += 1;
                }
                let total = converter.consume_input(frames, per_chunk).unwrap();
                assert_eq!(converter.input_samples_consumed % channels, 0);
                converter.accept_output(per_chunk, due(total));
            }
        }
    }
}

#[test]
fn a_run_emits_the_output_without_its_delay() {
    // Delay of five frames: the first two chunks of two frames are skipped whole.
    let out = run_numbered(resampling(&[0; 21], 2, 6), 2, |frames| frames / 2);
    // Ten whole frames: five are due, and the stream goes on from sample ten.
    assert_eq!(out, (10..20).collect::<Vec<i32>>());
}

#[test]
fn a_run_emits_what_is_due() {
    for len in 1..40 {
        for channels in [1, 3] {
            let samples = vec![0; len];
            let out = run_numbered(resampling(&samples, channels, 3), 1, |frames| 3 * frames);
            let frames = len / channels as usize;
            if frames > 0 {
                assert_eq!(out.len(), 3 * frames * channels as usize);
            }
        }
    }
}
