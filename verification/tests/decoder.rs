use rodio::decoder::symphonia::{
    calc_duration, time_to_std_duration, AudioSpec, Decoded, Event, InitAction, InitEvent,
    Registry, SeekError, SeekMode, SeekOutcome, SeekRequest, Seeked, Step, StreamError, SymphoniaDecoder, Time,
    TimeBase, Track,
};
use rodio::decoder::{DecoderError, Settings};
use rodio::time::Duration;
use std::sync::Arc;

fn settings() -> Settings {
    Settings {
        gapless: true,
        coarse_seek: false,
    }
}

fn track() -> Track {
    Track {
        id: 7,
        time_base: TimeBase::new(1, 1_000),
        delay: Some(100),
        padding: Some(50),
        duration: Some(2_500),
        num_frames: Some(9_000),
    }
}

fn decoded(samples: &[i32], channels: usize) -> Decoded<i32> {
    Decoded {
        frames: samples.len() / channels,
        samples: samples.to_vec(),
        spec: AudioSpec {
            channels,
            rate: 48_000,
        },
    }
}

fn decoder(samples: &[i32], channels: usize) -> SymphoniaDecoder<i32> {
    SymphoniaDecoder::init(track(), &settings(), decoded(samples, channels), 0)
}

/// Asks for the next sample where none has to be decoded for it.
fn ask(decoder: &mut SymphoniaDecoder<i32>) -> Option<i32> {
    match decoder.next(Event::Asked) {
        Step::Sample(sample) => Some(sample),
        Step::Finished => None,
        step => panic!("{step:?}"),
    }
}

#[test]
fn times_are_durations_unless_they_are_negative() {
    let time = |secs, nanos| time_to_std_duration(Time { secs, nanos });
    assert_eq!(time(0, 0), Duration::zero());
    assert_eq!(time(3, 500_000_000), Duration::from_millis(3_500));
    assert_eq!(time(-1, 0), Duration::zero());
    assert_eq!(time(i64::MIN, 7), Duration::zero());
    assert_eq!(time(i64::MAX, 0), Duration::new(i64::MAX as u64, 0));
}

#[test]
fn ticks_are_converted_to_time() {
    let base = TimeBase::new(1, 44_100).unwrap();
    assert_eq!(calc_duration(base, 44_100), Some(Duration::new(1, 0)));
    assert_eq!(calc_duration(base, 1), Some(Duration::new(0, 22_675)));
    assert_eq!(calc_duration(base, -44_100), Some(Duration::zero()));
    // Half a second before the start.
    assert_eq!(calc_duration(base, -22_050), Some(Duration::from_millis(500)));
    assert_eq!(
        base.calc_time(-66_150),
        Some(Time {
            secs: -1,
            nanos: 500_000_000
        })
    );
    let hours = TimeBase::new(3_600, 1).unwrap();
    assert_eq!(calc_duration(hours, i64::MAX), None);
    assert_eq!(calc_duration(hours, 2), Some(Duration::new(7_200, 0)));
    assert_eq!(TimeBase::new(0, 1), None);
    assert_eq!(TimeBase::new(1, 0), None);
}

#[test]
fn total_ticks_hold_what_is_not_trimmed() {
    assert_eq!(track().total_ticks(true), Some(2_500));
    assert_eq!(track().total_ticks(false), Some(2_650));
    let unknown = Track {
        duration: None,
        ..track()
    };
    assert_eq!(unknown.total_ticks(true), Some(9_000));
    let nothing = Track {
        num_frames: None,
        ..unknown
    };
    assert_eq!(nothing.total_ticks(false), None);
    let full = Track {
        duration: Some(u64::MAX),
        ..track()
    };
    assert_eq!(full.total_ticks(false), Some(u64::MAX));
    let plain = Track {
        delay: None,
        padding: None,
        ..track()
    };
    assert_eq!(plain.total_ticks(false), Some(2_500));
}

#[test]
fn total_duration_is_never_zero() {
    assert_eq!(track().total_duration(true), Some(Duration::from_millis(2_500)));
    assert_eq!(track().total_duration(false), Some(Duration::from_millis(2_650)));
    let silent = Track {
        duration: Some(0),
        ..track()
    };
    assert_eq!(silent.total_duration(true), None);
    let timeless = Track {
        time_base: None,
        ..track()
    };
    assert_eq!(timeless.total_duration(true), None);
    // A tick count too large for a timestamp is taken for a negative one.
    let wrapped = Track {
        duration: Some(u64::MAX),
        ..track()
    };
    assert_eq!(wrapped.total_duration(true), Some(Duration::from_millis(1)));
}

#[test]
fn the_first_audio_of_the_selected_track_is_found() {
    let search = |event| SymphoniaDecoder::<i32>::search(7, event);
    assert!(matches!(search(InitEvent::Packet(7)), InitAction::Decode));
    assert!(matches!(search(InitEvent::Packet(8)), InitAction::ReadPacket));
    assert!(matches!(
        search(InitEvent::Decoded(decoded(&[], 2))),
        InitAction::ReadPacket
    ));
    let InitAction::Found(found) = search(InitEvent::Decoded(decoded(&[1, 2], 2))) else {
        panic!("there is audio")
    };
    assert_eq!(found.samples, [1, 2]);
    assert!(matches!(
        search(InitEvent::DecodeFailed(StreamError::DecodeError("bad"))),
        InitAction::ReadPacket
    ));
    assert!(matches!(
        search(InitEvent::DecodeFailed(StreamError::ResetRequired)),
        InitAction::Fail(StreamError::ResetRequired)
    ));
    assert!(matches!(
        search(InitEvent::ReadFailed(StreamError::DecodeError("bad"))),
        InitAction::Fail(StreamError::DecodeError("bad"))
    ));
    assert!(matches!(
        search(InitEvent::EndOfStream(decoded(&[], 2))),
        InitAction::NoAudio
    ));
    assert!(matches!(
        search(InitEvent::EndOfStream(decoded(&[1, 2], 2))),
        InitAction::Found(_)
    ));
}

#[test]
fn failing_to_open_a_stream_is_an_error() {
    let new = |e| SymphoniaDecoder::<i32>::new(Err(e)).unwrap_err();
    assert!(matches!(
        new(StreamError::IoError("gone".to_string())),
        DecoderError::IoError(message) if message == "gone"
    ));
    assert!(matches!(
        new(StreamError::DecodeError("bad")),
        DecoderError::DecodeError("bad")
    ));
    assert!(matches!(
        new(StreamError::LimitError("much")),
        DecoderError::LimitError("much")
    ));
    assert!(matches!(
        new(StreamError::ResetRequired),
        DecoderError::ResetRequired
    ));
    assert!(matches!(
        new(StreamError::Unsupported),
        DecoderError::UnrecognizedFormat
    ));
    assert!(matches!(
        new(StreamError::Other),
        DecoderError::UnrecognizedFormat
    ));
    assert!(matches!(
        SymphoniaDecoder::<i32>::new(Ok(None)),
        Err(DecoderError::NoStreams)
    ));
    assert!(SymphoniaDecoder::new(Ok(Some(decoder(&[1], 1)))).is_ok());
}

#[test]
fn a_decoder_starts_with_the_first_audio() {
    let decoder = decoder(&[1, 2, 3, 4], 2);
    assert_eq!(decoder.current_span_len(), Some(4));
    assert_eq!(decoder.channels().get(), 2);
    assert_eq!(decoder.sample_rate().get(), 48_000);
    assert_eq!(decoder.total_duration(), Some(Duration::from_millis(2_500)));
    assert_eq!(decoder.seek_mode, SeekMode::Accurate);
    assert_eq!(decoder.selected_track_id, 7);
    let coarse = Settings {
        gapless: false,
        coarse_seek: true,
    };
    let decoder = SymphoniaDecoder::init(track(), &coarse, decoded(&[1], 1), 0);
    assert_eq!(decoder.seek_mode, SeekMode::Coarse);
    assert_eq!(decoder.total_duration(), Some(Duration::from_millis(2_650)));
}

#[test]
fn decoded_samples_are_emitted_in_order() {
    let mut decoder = decoder(&[1, 2, 3, 4], 2);
    let emitted: Vec<_> = (0..4).map(|_| ask(&mut decoder)).collect();
    assert_eq!(emitted, [Some(1), Some(2), Some(3), Some(4)]);
    assert!(matches!(decoder.next(Event::Asked), Step::ReadPacket));
    assert!(matches!(decoder.next(Event::Packet(3)), Step::ReadPacket));
    assert!(matches!(decoder.next(Event::Packet(7)), Step::Decode));
    assert!(matches!(decoder.next(Event::Malformed), Step::ReadPacket));
    assert!(matches!(
        decoder.next(Event::Decoded(decoded(&[], 2))),
        Step::ReadPacket
    ));
    assert!(matches!(
        decoder.next(Event::Decoded(decoded(&[5, 6, 7], 1))),
        Step::Sample(5)
    ));
    assert_eq!(decoder.channels().get(), 1);
    assert_eq!(ask(&mut decoder), Some(6));
}

#[test]
fn the_last_frame_is_completed_with_silence() {
    let mut decoder = decoder(&[1, 2, 3, 4], 3);
    for sample in [1, 2, 3, 4] {
        assert_eq!(ask(&mut decoder), Some(sample));
    }
    assert!(matches!(decoder.next(Event::Asked), Step::ReadPacket));
    assert!(matches!(decoder.next(Event::InputEnded), Step::Sample(0)));
    assert_eq!(ask(&mut decoder), Some(0));
    assert!(matches!(decoder.next(Event::Asked), Step::ReadPacket));
    assert!(matches!(decoder.next(Event::InputEnded), Step::Finished));
}

#[test]
fn whole_frames_need_no_silence() {
    let mut decoder = decoder(&[1, 2], 2);
    assert_eq!(ask(&mut decoder), Some(1));
    assert_eq!(ask(&mut decoder), Some(2));
    assert!(matches!(decoder.next(Event::Asked), Step::ReadPacket));
    assert!(matches!(decoder.next(Event::InputEnded), Step::Finished));
}

#[test]
fn seeks_are_clamped_to_the_end() {
    let mut decoder = decoder(&[1, 2, 3, 4], 2);
    assert_eq!(ask(&mut decoder), Some(1));
    let request = decoder.try_seek(Duration::from_millis(1_000)).unwrap();
    assert_eq!(request.target, Duration::from_millis(1_000));
    assert_eq!(request.active_channel, 1);
    assert_eq!(request.mode, SeekMode::Accurate);
    let request = decoder.try_seek(Duration::from_millis(3_000)).unwrap();
    assert_eq!(request.target, Duration::from_millis(2_500));
    decoder.total_duration = None;
    let request = decoder.try_seek(Duration::from_millis(3_000)).unwrap();
    assert_eq!(request.target, Duration::from_millis(3_000));
}

#[test]
fn accurate_seeks_need_a_time_base() {
    let mut decoder = decoder(&[1, 2], 2);
    decoder.time_base = None;
    assert!(matches!(
        decoder.try_seek(Duration::zero()),
        Err(SeekError::AccurateSeekNotSupported)
    ));
    decoder.seek_mode = SeekMode::Coarse;
    assert!(decoder.try_seek(Duration::zero()).is_ok());
}

#[test]
fn an_accurate_seek_tells_how_far_it_is_off() {
    let mut decoder = decoder(&[1, 2], 2);
    let outcome = SeekOutcome::Done {
        required_ts: 1_500,
        actual_ts: 1_250,
    };
    assert_eq!(
        decoder.finish_seek(outcome).unwrap(),
        Seeked::Before(Duration::from_millis(250))
    );
    assert!(matches!(decoder.next(Event::Asked), Step::ReadPacket));
    let outcome = SeekOutcome::Done {
        required_ts: 1_250,
        actual_ts: 1_500,
    };
    assert_eq!(
        decoder.finish_seek(outcome).unwrap(),
        Seeked::Before(Duration::zero())
    );
    assert_eq!(decoder.refine_position(10, 4), Duration::from_millis(6));
    assert_eq!(decoder.samples_to_skip(7), 6);
    assert_eq!(decoder.samples_to_skip(8), 8);
    assert_eq!(decoder.refine_position(4, 10), Duration::zero());
    let request = SeekRequest {
        mode: SeekMode::Accurate,
        target: Duration::zero(),
        active_channel: 1,
    };
    assert_eq!(decoder.samples_to_pass_over(7, &request), 7);
    assert_eq!(decoder.samples_to_pass_over(8, &request), 9);
    assert_eq!(decoder.samples_to_pass_over(0, &request), 1);
}

#[test]
fn a_coarse_seek_stays_where_it_is() {
    let mut decoder = decoder(&[1, 2], 2);
    decoder.seek_mode = SeekMode::Coarse;
    let outcome = SeekOutcome::Done {
        required_ts: 1_500,
        actual_ts: 1_250,
    };
    assert_eq!(decoder.finish_seek(outcome).unwrap(), Seeked::AtTarget);
}

#[test]
fn a_seek_past_the_end_ends_the_stream_until_the_next_seek() {
    let mut decoder = decoder(&[1, 2, 3, 4], 2);
    assert_eq!(ask(&mut decoder), Some(1));
    assert_eq!(
        decoder.finish_seek(SeekOutcome::OutOfRange).unwrap(),
        Seeked::AtEnd
    );
    for _ in 0..3 {
        assert_eq!(ask(&mut decoder), None);
    }
    let outcome = SeekOutcome::Done {
        required_ts: 0,
        actual_ts: 0,
    };
    assert!(decoder.finish_seek(outcome).is_ok());
    assert!(matches!(decoder.next(Event::Asked), Step::ReadPacket));
}

#[test]
fn failed_seeks_leave_the_stream_alone() {
    let mut decoder = decoder(&[1, 2], 2);
    assert!(matches!(
        decoder.finish_seek(SeekOutcome::ForwardOnly),
        Err(SeekError::RandomAccessNotSupported)
    ));
    assert!(matches!(
        decoder.finish_seek(SeekOutcome::Unrepresentable),
        Err(SeekError::AccurateSeekNotSupported)
    ));
    let e = decoder
        .finish_seek(SeekOutcome::Failed(Arc::new(symphonia::core::errors::Error::ResetRequired)))
        .unwrap_err();
    let SeekError::Demuxer(inner) = e.clone() else {
        panic!("the demuxer failed")
    };
    assert!(matches!(*inner, symphonia::core::errors::Error::ResetRequired));
    assert_eq!(ask(&mut decoder), Some(1));
}

/// Whether there is a decoder for FLAC in the registry.
fn knows_flac(registry: &Registry) -> bool {
    let handle = registry.read();
    let found = handle
        .borrow()
        .get()
        .get_audio_decoder(symphonia::core::codecs::audio::well_known::CODEC_ID_FLAC)
        .is_some();
    handle.release_read();
    found
}

#[test]
fn a_registry_holds_what_it_was_made_with() {
    let mut codecs = symphonia::core::codecs::registry::CodecRegistry::new();
    symphonia::default::register_enabled_codecs(&mut codecs);
    assert!(knows_flac(&Registry::new(codecs)));
    let empty = symphonia::core::codecs::registry::CodecRegistry::new();
    assert!(!knows_flac(&Registry::new(empty)));
}

#[test]
fn a_registry_is_shared_by_its_clones() {
    let registry = Registry::new(symphonia::core::codecs::registry::CodecRegistry::new());
    let clone = registry.clone();
    let (codecs, handle) = registry.write();
    handle.release_write(codecs);
    let first = registry.read();
    let second = clone.read();
    assert!(std::ptr::eq(first.borrow(), second.borrow()));
    first.release_read();
    second.release_read();
    assert!(!knows_flac(&registry));
    let (mut codecs, handle) = clone.write();
    symphonia::default::register_enabled_codecs(codecs.get_mut());
    handle.release_write(codecs);
    assert!(knows_flac(&registry));
}

/// A stream of 16-bit samples in a WAVE container.
fn wave(samples: &[i16], channels: u16, rate: u32) -> Vec<u8> {
    let data_len = samples.len() as u32 * 2;
    let mut bytes = Vec::new();
    bytes.extend(b"RIFF");
    bytes.extend((36 + data_len).to_le_bytes());
    bytes.extend(b"WAVEfmt ");
    bytes.extend(16u32.to_le_bytes());
    bytes.extend(1u16.to_le_bytes());
    bytes.extend(channels.to_le_bytes());
    bytes.extend(rate.to_le_bytes());
    bytes.extend((rate * channels as u32 * 2).to_le_bytes());
    bytes.extend((channels * 2).to_le_bytes());
    bytes.extend(16u16.to_le_bytes());
    bytes.extend(b"data");
    bytes.extend(data_len.to_le_bytes());
    for sample in samples {
        bytes.extend(sample.to_le_bytes());
    }
    bytes
}

/// A demuxer and a codec for such a stream, and what the demuxer tells of it.
#[allow(clippy::type_complexity)]
fn open(
    bytes: Vec<u8>,
) -> (
    Box<dyn symphonia::core::formats::FormatReader>,
    Box<dyn symphonia::core::codecs::audio::AudioDecoder>,
    Track,
) {
    let stream = symphonia::core::io::MediaSourceStream::new(
        Box::new(std::io::Cursor::new(bytes)),
        symphonia::core::io::MediaSourceStreamOptions::default(),
    );
    let format = symphonia::default::get_probe()
        .probe(
            &symphonia::core::formats::probe::Hint::new(),
            stream,
            symphonia::core::formats::FormatOptions::default(),
            symphonia::core::meta::MetadataOptions::default(),
        )
        .unwrap();
    let track = format
        .first_track_known_codec(symphonia::core::formats::TrackType::Audio)
        .unwrap();
    let Some(symphonia::core::codecs::CodecParameters::Audio(params)) = &track.codec_params else {
        panic!("the track is audio")
    };
    let codec = symphonia::default::get_codecs()
        .make_audio_decoder(
            params,
            &symphonia::core::codecs::audio::AudioDecoderOptions::default(),
        )
        .unwrap();
    let told = Track {
        id: track.id,
        time_base: track
            .time_base
            .and_then(|base| TimeBase::new(base.numer.get(), base.denom.get())),
        delay: track.delay,
        padding: track.padding,
        duration: track.duration.map(|duration| duration.get()),
        num_frames: track.num_frames,
    };
    (format, codec, told)
}

/// What the codec decoded last.
fn last(codec: &dyn symphonia::core::codecs::audio::AudioDecoder) -> Decoded<f32> {
    let audio = codec.last_decoded();
    let mut samples = Vec::new();
    audio.copy_to_vec_interleaved(&mut samples);
    Decoded {
        frames: audio.frames(),
        samples,
        spec: AudioSpec {
            channels: audio.spec().channels().count(),
            rate: audio.spec().rate(),
        },
    }
}

/// Opens a stream and plays all of it.
fn play(bytes: Vec<u8>) -> (SymphoniaDecoder<f32>, usize, Vec<f32>) {
    let (mut format, mut codec, track) = open(bytes);
    let mut packet = None;
    let mut action = InitAction::ReadPacket;
    let first = loop {
        let event = match action {
            InitAction::ReadPacket => match format.next_packet().unwrap() {
                Some(read) => {
                    let id = read.track_id;
                    packet = Some(read);
                    InitEvent::Packet(id)
                }
                None => InitEvent::EndOfStream(last(&*codec)),
            },
            InitAction::Decode => {
                codec.decode(&packet.take().unwrap()).unwrap();
                InitEvent::Decoded(last(&*codec))
            }
            InitAction::Found(first) => break first,
            other => panic!("{other:?}"),
        };
        action = SymphoniaDecoder::search(track.id, event);
    };
    let mut decoder = SymphoniaDecoder::init(track, &settings(), first, 0.0);
    let at_construction = decoder.current_span_len().unwrap();
    let mut out = Vec::new();
    let mut event = Event::Asked;
    loop {
        event = match decoder.next(event) {
            Step::Sample(sample) => {
                out.push(sample);
                Event::Asked
            }
            Step::Finished => return (decoder, at_construction, out),
            Step::ReadPacket => match format.next_packet() {
                Ok(Some(read)) => {
                    let id = read.track_id;
                    packet = Some(read);
                    Event::Packet(id)
                }
                _ => Event::InputEnded,
            },
            Step::Decode => {
                codec.decode(&packet.take().unwrap()).unwrap();
                Event::Decoded(last(&*codec))
            }
        };
    }
}

#[test]
fn wave_decoder_not_exhausted_at_construction() {
    let samples: Vec<i16> = (0..20_000).collect();
    let (decoder, at_construction, out) = play(wave(&samples, 2, 8_000));
    assert!(at_construction > 0);
    assert_eq!(out.len(), 20_000);
    assert_eq!(out[16_384], 0.5);
    assert_eq!(out[1], 1.0 / 32_768.0);
    assert_eq!(decoder.channels().get(), 2);
    assert_eq!(decoder.sample_rate().get(), 8_000);
    assert_eq!(decoder.total_duration(), Some(Duration::from_millis(1_250)));
}

#[test]
fn audio_with_too_many_channels_cannot_be_played() {
    let mut decoder = decoder(&[1, 2], 2);
    assert!(decoder.can_accept(&Event::Asked));
    assert!(decoder.can_accept(&Event::InputEnded));
    let mut crowd = decoded(&[1, 2], 2);
    crowd.spec.channels = 65_536;
    assert!(!decoder.can_accept(&Event::Decoded(crowd)));
    decoder.spec.channels = 0;
    assert!(!decoder.can_accept(&Event::Asked));
    assert!(decoder.can_accept(&Event::Malformed));
    assert!(decoder.finish_seek(SeekOutcome::OutOfRange).is_ok());
    assert!(decoder.can_accept(&Event::Asked));
    assert_eq!(ask(&mut decoder), None);
}

#[test]
fn a_second_seek_changes_nothing() {
    let mut decoder = decoder(&[1, 2, 3, 4], 2);
    assert_eq!(ask(&mut decoder), Some(1));
    assert_eq!(decoder.try_seek(Duration::zero()).unwrap().active_channel, 1);
    let done = || SeekOutcome::Done {
        required_ts: 5,
        actual_ts: 5,
    };
    assert!(decoder.finish_seek(done()).is_ok());
    assert_eq!(decoder.try_seek(Duration::zero()).unwrap().active_channel, 0);
    assert!(decoder.finish_seek(done()).is_ok());
    assert_eq!(decoder.try_seek(Duration::zero()).unwrap().active_channel, 0);
    assert!(decoder.finish_seek(SeekOutcome::OutOfRange).is_ok());
    assert_eq!(decoder.try_seek(Duration::zero()).unwrap().active_channel, 0);
    assert!(decoder.finish_seek(done()).is_ok());
    assert!(matches!(decoder.next(Event::Asked), Step::ReadPacket));
    assert!(matches!(
        decoder.next(Event::Decoded(decoded(&[7, 8], 2))),
        Step::Sample(7)
    ));
    assert_eq!(decoder.try_seek(Duration::zero()).unwrap().active_channel, 1);
    assert_eq!(ask(&mut decoder), Some(8));
    assert_eq!(decoder.try_seek(Duration::zero()).unwrap().active_channel, 0);
}

#[test]
fn no_silence_follows_whole_frames_after_a_seek() {
    let mut decoder = decoder(&[1, 2, 3, 4], 2);
    decoder.seek_mode = SeekMode::Coarse;
    assert_eq!(ask(&mut decoder), Some(1));
    let outcome = SeekOutcome::Done {
        required_ts: i64::MAX,
        actual_ts: i64::MIN,
    };
    assert_eq!(decoder.finish_seek(outcome).unwrap(), Seeked::AtTarget);
    // The sample of the first channel is skipped.
    assert!(matches!(decoder.next(Event::Asked), Step::ReadPacket));
    assert!(matches!(
        decoder.next(Event::Decoded(decoded(&[5, 6, 7, 8], 2))),
        Step::Sample(5)
    ));
    for sample in [6, 7, 8] {
        assert_eq!(ask(&mut decoder), Some(sample));
    }
    assert!(matches!(decoder.next(Event::Asked), Step::ReadPacket));
    assert!(matches!(decoder.next(Event::InputEnded), Step::Finished));
}

#[test]
fn a_stream_needs_a_track_with_a_codec() {
    let has_stream = SymphoniaDecoder::<i32>::has_stream;
    assert!(has_stream(true, true, false));
    assert!(!has_stream(false, false, false));
    assert!(!has_stream(true, false, false));
    assert!(!has_stream(true, true, true));
}

#[test]
fn only_malformed_packets_are_passed_over() {
    let failed = SymphoniaDecoder::<i32>::decode_failed;
    assert!(matches!(failed(StreamError::DecodeError("bad")), Event::Malformed));
    assert!(matches!(failed(StreamError::ResetRequired), Event::InputEnded));
    assert!(matches!(
        failed(StreamError::IoError("gone".to_string())),
        Event::InputEnded
    ));
    let read = SymphoniaDecoder::<i32>::packet_read;
    assert!(matches!(read(Ok(Some(3))), Event::Packet(3)));
    assert!(matches!(read(Ok(None)), Event::InputEnded));
    assert!(matches!(read(Err(StreamError::DecodeError("bad"))), Event::InputEnded));
}

#[test]
fn a_run_emits_the_decoded_packets() {
    let mut decoder = decoder(&[1, 2], 2);
    let mut events = vec![
        Event::Packet(9),
        Event::Packet(7),
        Event::Malformed,
        Event::Packet(7),
        Event::Decoded(decoded(&[], 2)),
        Event::Packet(7),
        Event::Decoded(decoded(&[3, 4, 5, 6], 2)),
        Event::Packet(7),
        Event::Decoded(decoded(&[7, 8], 2)),
        Event::InputEnded,
    ]
    .into_iter();
    let mut out = Vec::new();
    let mut event = Event::Asked;
    loop {
        event = match decoder.next(event) {
            Step::Sample(sample) => {
                out.push(sample);
                Event::Asked
            }
            Step::Finished => break,
            Step::ReadPacket | Step::Decode => events.next().unwrap(),
        };
    }
    assert_eq!(out, [1, 2, 3, 4, 5, 6, 7, 8]);
}

#[test]
fn packets_passed_over_make_no_difference_to_a_search() {
    let run = |passed_over: usize| {
        let mut events = Vec::new();
        for n in 0..passed_over {
            match n % 3 {
                0 => events.push(InitEvent::Packet(1)),
                1 => {
                    events.push(InitEvent::Packet(7));
                    events.push(InitEvent::Decoded(decoded(&[], 2)));
                }
                _ => {
                    events.push(InitEvent::Packet(7));
                    events.push(InitEvent::DecodeFailed(StreamError::DecodeError("bad")));
                }
            }
        }
        events.push(InitEvent::Packet(7));
        events.push(InitEvent::Decoded(decoded(&[5, 6], 2)));
        for event in events {
            match SymphoniaDecoder::search(7, event) {
                InitAction::ReadPacket | InitAction::Decode => {}
                InitAction::Found(first) => return first.samples,
                other => panic!("{other:?}"),
            }
        }
        panic!("there is audio")
    };
    assert_eq!(run(0), [5, 6]);
    assert_eq!(run(1_000), [5, 6]);
}

#[test]
fn a_new_decoder_is_not_exhausted() {
    let InitAction::Found(first) =
        SymphoniaDecoder::search(7, InitEvent::Decoded(decoded(&[4, 5], 2)))
    else {
        panic!("there is audio")
    };
    let mut decoder = SymphoniaDecoder::init(track(), &settings(), first, 0);
    assert_eq!(decoder.current_span_len(), Some(2));
    assert_eq!(ask(&mut decoder), Some(4));
}
