use llm_rtc::audio::codec::{
    ApplicationMode, ChannelLayout, CodecConfig, CodecError, EncodeFault, EncoderSetting, OpusDecoder, OpusEncoder,
    OpusFault, MAX_PACKET_SIZE,
};

fn fault(function: &str) -> OpusFault {
    OpusFault {
        function: function.to_string(),
        description: "bad argument".to_string(),
    }
}

/// A 440 Hz sine wave at a comfortably audible amplitude.
fn sine_frame(freq: f32, sample_rate: u32, len: usize, amplitude: i16) -> Vec<i16> {
    (0..len)
        .map(|i| {
            let t = i as f32 / sample_rate as f32;
            (amplitude as f32 * (2.0 * std::f32::consts::PI * freq * t).sin()) as i16
        })
        .collect()
}

/// Stands for an encoder: one byte per sample, behind the frame length. It
/// counts its calls.
fn encode_stub(calls: u32, pcm: &[i16], max_size: usize) -> (u32, Result<Vec<u8>, EncodeFault>) {
    assert_eq!(max_size, MAX_PACKET_SIZE);
    let mut packet = (pcm.len() as u16).to_be_bytes().to_vec();
    packet.extend(pcm.iter().map(|sample| (sample >> 8) as u8));
    (calls + 1, Ok(packet))
}

/// Stands for the duration lookup of the matching decoder.
fn duration_stub(calls: u32, packet: &[u8]) -> (u32, Result<usize, OpusFault>) {
    if packet.len() < 2 {
        return (calls + 1, Err(fault("opus_packet_get_nb_samples")));
    }
    let count = usize::from(u16::from_be_bytes([packet[0], packet[1]]));
    (calls + 1, Ok(count))
}

/// Stands for the matching decoder; conceals with silence.
fn decode_stub(
    calls: u32,
    packet: &[u8],
    mut buffer: Vec<i16>,
    _fec: bool,
) -> (u32, Result<(Vec<i16>, usize), OpusFault>) {
    for (sample, byte) in buffer.iter_mut().zip(packet.iter().skip(2)) {
        *sample = i16::from(*byte as i8) << 8;
    }
    let count = buffer.len();
    (calls + 1, Ok((buffer, count)))
}

#[test]
fn default_config_matches_voice_tuning() {
    let cfg = CodecConfig::default();
    assert_eq!(cfg.sample_rate, 48_000);
    assert_eq!(cfg.channels, 1);
    assert_eq!(cfg.bitrate, 24_000);
    assert_eq!(cfg.frame_size_us as f32 / 1_000.0, 20.0);
    assert!(cfg.use_dtx);
    assert!(cfg.use_fec);
    assert_eq!(cfg.complexity, 0);
}

#[test]
fn invalid_configs_are_rejected() {
    assert!(OpusEncoder::new(CodecConfig {
        sample_rate: 44_100,
        ..CodecConfig::default()
    })
    .is_err());

    assert!(OpusEncoder::new(CodecConfig {
        frame_size_us: 15_000,
        ..CodecConfig::default()
    })
    .is_err());

    assert!(OpusEncoder::new(CodecConfig {
        channels: 5,
        ..CodecConfig::default()
    })
    .is_err());

    assert!(OpusDecoder::new(CodecConfig {
        complexity: 11,
        ..CodecConfig::default()
    })
    .is_err());
}

#[test]
fn rejections_say_what_is_wrong() {
    let good = CodecConfig::default();
    let message = |config: CodecConfig| match config.validate() {
        Err(CodecError::InvalidConfig(message)) => message,
        other => panic!("unexpected {:?}", other),
    };
    assert_eq!(good.validate(), Ok(()));
    assert_eq!(
        message(CodecConfig {
            sample_rate: 44_100,
            ..good
        }),
        "sample_rate 44100 Hz is not supported (expected one of [8000, 12000, 16000, 24000, 48000])"
    );
    assert_eq!(
        message(CodecConfig { channels: 0, ..good }),
        "channels must be 1 (mono) or 2 (stereo), got 0"
    );
    assert_eq!(
        message(CodecConfig {
            bitrate: 499,
            ..good
        }),
        "bitrate 499 bps out of range [500, 512000]"
    );
    assert_eq!(
        message(CodecConfig {
            bitrate: 512_001,
            ..good
        }),
        "bitrate 512001 bps out of range [500, 512000]"
    );
    assert_eq!(
        message(CodecConfig {
            frame_size_us: 15_000,
            ..good
        }),
        "frame_size_ms 15 is invalid (expected one of [2.5, 5.0, 10.0, 20.0, 40.0, 60.0])"
    );
    assert_eq!(
        message(CodecConfig {
            frame_size_us: 7_250,
            ..good
        }),
        "frame_size_ms 7.25 is invalid (expected one of [2.5, 5.0, 10.0, 20.0, 40.0, 60.0])"
    );
    assert_eq!(
        message(CodecConfig {
            frame_size_us: 1,
            ..good
        }),
        "frame_size_ms 0.001 is invalid (expected one of [2.5, 5.0, 10.0, 20.0, 40.0, 60.0])"
    );
    assert_eq!(
        message(CodecConfig {
            complexity: 11,
            ..good
        }),
        "complexity 11 out of range [0, 10]"
    );
    // The first unusable value is the one reported.
    assert!(message(CodecConfig {
        sample_rate: 1,
        channels: 9,
        complexity: 99,
        ..good
    })
    .starts_with("sample_rate 1 Hz"));
}

#[test]
fn frame_sizes_follow_the_configuration() {
    let good = CodecConfig::default();
    assert_eq!(good.samples_per_frame(), 960);
    assert_eq!(
        CodecConfig {
            frame_size_us: 2_500,
            sample_rate: 8_000,
            ..good
        }
        .samples_per_frame(),
        20
    );
    let stereo = CodecConfig {
        frame_size_us: 60_000,
        channels: 2,
        ..good
    };
    assert_eq!(stereo.samples_per_frame(), 5_760);
    assert_eq!(stereo.channel_layout(), ChannelLayout::Stereo);
    assert_eq!(good.channel_layout(), ChannelLayout::Mono);
    assert_eq!(OpusDecoder::new(stereo).unwrap().samples_per_frame(), 5_760);
}

/// What a codec library was asked to create.
type Requests = Vec<(u32, ChannelLayout, ApplicationMode)>;

fn create_encoder(
    mut requests: Requests,
    rate: u32,
    layout: ChannelLayout,
    mode: ApplicationMode,
) -> (Requests, Result<Vec<EncoderSetting>, OpusFault>) {
    requests.push((rate, layout, mode));
    (requests, Ok(Vec::new()))
}

fn record_setting(
    mut settings: Vec<EncoderSetting>,
    setting: EncoderSetting,
) -> (Vec<EncoderSetting>, Result<(), OpusFault>) {
    settings.push(setting);
    (settings, Ok(()))
}

#[test]
fn encoders_are_opened_and_tuned_in_order() {
    let (requests, opened) = OpusEncoder::open(
        CodecConfig::default(),
        Vec::new(),
        &create_encoder,
        &record_setting,
    );
    let (encoder, settings) = opened.unwrap();
    assert_eq!(encoder.config(), &CodecConfig::default());
    assert_eq!(
        requests,
        vec![(48_000, ChannelLayout::Mono, ApplicationMode::Voip)]
    );
    assert_eq!(
        settings,
        vec![
            EncoderSetting::Bitrate(24_000),
            EncoderSetting::Complexity(0),
            EncoderSetting::Dtx(true),
            EncoderSetting::InbandFec(true),
            EncoderSetting::PacketLossPercent(10),
            EncoderSetting::VoiceSignal,
        ]
    );

    let without_fec = CodecConfig {
        use_fec: false,
        use_dtx: false,
        complexity: 7,
        ..CodecConfig::default()
    };
    let (_, opened) = OpusEncoder::open(without_fec, Vec::new(), &create_encoder, &record_setting);
    assert_eq!(
        opened.unwrap().1,
        vec![
            EncoderSetting::Bitrate(24_000),
            EncoderSetting::Complexity(7),
            EncoderSetting::Dtx(false),
            EncoderSetting::InbandFec(false),
            EncoderSetting::VoiceSignal,
        ]
    );
}

#[test]
fn an_invalid_configuration_reaches_no_codec_library() {
    let bad = CodecConfig {
        channels: 3,
        ..CodecConfig::default()
    };
    let (requests, opened) = OpusEncoder::open(bad, Vec::new(), &create_encoder, &record_setting);
    assert!(requests.is_empty());
    assert!(matches!(opened, Err(CodecError::InvalidConfig(_))));

    let count = |calls: u32, _: u32, _: ChannelLayout| (calls + 1, Ok(()));
    let (calls, opened) = OpusDecoder::open(bad, 0, &count);
    assert_eq!(calls, 0);
    assert!(matches!(opened, Err(CodecError::InvalidConfig(_))));
}

#[test]
fn a_failing_codec_library_ends_opening() {
    let broken = |calls: u32, _: u32, _: ChannelLayout, _: ApplicationMode| {
        (
            calls + 1,
            Err::<Vec<EncoderSetting>, OpusFault>(fault("opus_encoder_create")),
        )
    };
    let (calls, opened) = OpusEncoder::open(CodecConfig::default(), 0, &broken, &record_setting);
    assert_eq!(calls, 1);
    assert_eq!(
        opened.unwrap_err(),
        CodecError::Encode(fault("opus_encoder_create"))
    );

    // The fourth setting is refused and no other follows.
    let without_fec = |mut settings: Vec<EncoderSetting>, setting: EncoderSetting| {
        settings.push(setting);
        match setting {
            EncoderSetting::InbandFec(_) => {
                assert_eq!(settings.len(), 4);
                (settings, Err(fault("opus_encoder_ctl")))
            }
            EncoderSetting::PacketLossPercent(_) | EncoderSetting::VoiceSignal => {
                panic!("tuning went on after a failure")
            }
            _ => (settings, Ok(())),
        }
    };
    let (requests, opened) = OpusEncoder::open(
        CodecConfig::default(),
        Vec::new(),
        &create_encoder,
        &without_fec,
    );
    assert_eq!(requests.len(), 1);
    assert_eq!(
        opened.unwrap_err(),
        CodecError::Encode(fault("opus_encoder_ctl"))
    );

    let broken = |calls: u32, _: u32, _: ChannelLayout| {
        (
            calls + 1,
            Err::<(), OpusFault>(fault("opus_decoder_create")),
        )
    };
    let (calls, opened) = OpusDecoder::open(CodecConfig::default(), 0, &broken);
    assert_eq!(calls, 1);
    assert_eq!(
        opened.unwrap_err(),
        CodecError::InvalidConfig(
            "failed to create opus decoder: opus_decoder_create: bad argument".to_string()
        )
    );
    let fine = |calls: u32, rate: u32, layout: ChannelLayout| (calls + 1, Ok((rate, layout)));
    let (calls, opened) = OpusDecoder::open(CodecConfig::default(), 0, &fine);
    assert_eq!(calls, 1);
    assert_eq!(opened.unwrap().1, (48_000, ChannelLayout::Mono));
}

#[test]
fn encode_then_decode_sine_roundtrip() {
    let config = CodecConfig::default();
    let samples_per_frame = config.samples_per_frame(); // 960 @ 48 kHz mono

    let encoder = OpusEncoder::new(config).expect("encoder");
    let decoder = OpusDecoder::new(config).expect("decoder");

    let pcm = sine_frame(440.0, 48_000, samples_per_frame, 8_000);
    assert_eq!(pcm.len(), encoder.samples_per_frame());

    let (calls, packet) = encoder.encode(&pcm, 0, &encode_stub);
    let packet = packet.expect("encode");
    assert_eq!(calls, 1);
    assert!(!packet.is_empty(), "encoded packet must not be empty");
    assert!(packet.len() <= MAX_PACKET_SIZE);

    let (calls, decoded) = decoder.decode(&packet, 0, &duration_stub, &decode_stub);
    let decoded = decoded.expect("decode");
    assert_eq!(calls, 2);
    assert_eq!(
        decoded.len(),
        samples_per_frame,
        "decoded output must match one full frame"
    );

    // Non-silent: the reconstructed wave must retain real energy.
    let peak = decoded.iter().map(|s| s.abs()).max().unwrap_or(0);
    assert!(peak > 1_000, "decoded sine wave appears silent (peak {peak})");
}

#[test]
fn encode_frames_splits_into_frame_chunks() {
    let config = CodecConfig::default();
    let frame = config.samples_per_frame(); // 960

    let encoder = OpusEncoder::new(config).expect("encoder");

    // 2.5 frames worth of audio: two full frames + a padded partial.
    let pcm = sine_frame(440.0, 48_000, frame * 2 + frame / 2, 8_000);
    let (calls, packets) = encoder.encode_frames(&pcm, 0, &encode_stub);
    let packets = packets.expect("encode_frames");

    assert_eq!(calls, 3);
    assert_eq!(packets.len(), 3, "partial tail frame must become its own packet");
    assert!(packets.iter().all(|p| !p.is_empty()));

    // Decoding the stream yields 3 full frames of audio.
    let decoder = OpusDecoder::new(CodecConfig::default()).expect("decoder");
    let total: usize = packets
        .iter()
        .map(|p| {
            decoder
                .decode(p, 0, &duration_stub, &decode_stub)
                .1
                .expect("decode")
                .len()
        })
        .sum();
    assert_eq!(total, frame * 3);
}

#[test]
fn frames_are_handed_over_in_order_and_padded() {
    let record = |mut seen: Vec<Vec<i16>>, pcm: &[i16], _: usize| {
        seen.push(pcm.to_vec());
        let packet = vec![seen.len() as u8];
        (seen, Ok(packet))
    };
    let encoder = OpusEncoder::new(CodecConfig {
        sample_rate: 8_000,
        frame_size_us: 2_500,
        ..CodecConfig::default()
    })
    .unwrap();
    let pcm: Vec<i16> = (1..=50).collect();
    let (seen, packets) = encoder.encode_frames(&pcm, Vec::new(), &record);
    assert_eq!(packets, Ok(vec![vec![1], vec![2], vec![3]]));
    let mut joined: Vec<i16> = seen.concat();
    assert_eq!(joined.split_off(50), vec![0; 10]);
    assert_eq!(joined, pcm);

    let (seen, packets) = encoder.encode_frames(&[], Vec::new(), &record);
    assert!(seen.is_empty());
    assert_eq!(packets, Ok(Vec::new()));
}

#[test]
fn encoding_stops_at_the_first_failure() {
    let second_fails = |calls: u32, _: &[i16], _: usize| {
        if calls == 1 {
            (calls + 1, Err(EncodeFault::Rejected(fault("opus_encode"))))
        } else {
            (calls + 1, Ok(vec![9]))
        }
    };
    let encoder = OpusEncoder::new(CodecConfig::default()).unwrap();
    let mut packets = vec![vec![7u8]];
    let (calls, done) =
        encoder.encode_frames_into(&vec![0i16; 4 * 960], &mut packets, 0, &second_fails);
    assert_eq!(done, Err(CodecError::Encode(fault("opus_encode"))));
    assert_eq!(packets, vec![vec![7], vec![9]]);
    assert_eq!(calls, 2);

    let poisoned =
        |calls: u32, _: &[i16], _: usize| (calls + 1, Err::<Vec<u8>, _>(EncodeFault::Poisoned));
    assert_eq!(
        encoder.encode(&vec![0i16; 960], 0, &poisoned),
        (1, Err(CodecError::Poisoned))
    );
}

#[test]
fn encode_rejects_wrong_frame_size() {
    let encoder = OpusEncoder::new(CodecConfig::default()).expect("encoder");
    let too_short = vec![0i16; encoder.samples_per_frame() - 1];
    assert!(matches!(
        encoder.encode(&too_short, 0, &encode_stub).1,
        Err(CodecError::FrameSizeMismatch { .. })
    ));
    // The engine is not called.
    assert_eq!(
        encoder.encode(&too_short, 0, &encode_stub),
        (
            0,
            Err(CodecError::FrameSizeMismatch {
                actual: 959,
                expected: 960,
                channels: 1,
            })
        )
    );
}

#[test]
fn decode_fec_conceals_lost_packet() {
    let config = CodecConfig::default();
    let frame = config.samples_per_frame();

    let encoder = OpusEncoder::new(config).expect("encoder");
    let decoder = OpusDecoder::new(config).expect("decoder");

    // A real frame reaches the decoder and the next packet is lost: an empty
    // packet asks for loss concealment.
    let (calls, first) = encoder.encode(
        &sine_frame(440.0, 48_000, frame, 8_000),
        0,
        &encode_stub,
    );
    let first = first.expect("encode");
    let (calls, next) = encoder.encode(
        &sine_frame(440.0, 48_000, frame, 8_000),
        calls,
        &encode_stub,
    );
    let _next = next.expect("encode");
    assert_eq!(calls, 2);

    let (calls, pcm) = decoder.decode(&first, 0, &duration_stub, &decode_stub);
    assert_eq!(pcm.expect("decode").len(), frame);
    assert_eq!(calls, 2);

    let (calls, concealed) = decoder.decode_fec(&[], calls, &duration_stub, &decode_stub);
    assert_eq!(
        concealed.expect("decode_fec").len(),
        frame,
        "concealed frame must produce a full frame of audio"
    );
    assert_eq!(calls, 3);
}

#[test]
fn the_packet_sizes_the_output_and_the_decoder_its_length() {
    let stereo = CodecConfig {
        channels: 2,
        ..CodecConfig::default()
    };
    let decoder = OpusDecoder::new(stereo).unwrap();
    let five = |rooms: Vec<(usize, usize, bool)>, _: &[u8]| (rooms, Ok(5));
    let three_of_room = |mut rooms: Vec<(usize, usize, bool)>,
                         packet: &[u8],
                         mut buffer: Vec<i16>,
                         fec: bool| {
        rooms.push((packet.len(), buffer.len(), fec));
        buffer.iter_mut().enumerate().for_each(|(i, s)| *s = i as i16);
        (rooms, Ok((buffer, 3)))
    };
    let (rooms, pcm) = decoder.decode(&[1, 2], Vec::new(), &five, &three_of_room);
    assert_eq!(pcm, Ok(vec![0, 1, 2, 3, 4, 5]));
    let (rooms, pcm) = decoder.decode_fec(&[1], rooms, &five, &three_of_room);
    assert_eq!(pcm.unwrap().len(), 6);
    let (rooms, pcm) = decoder.decode(&[], rooms, &five, &three_of_room);
    assert_eq!(pcm.unwrap().len(), 6);
    assert_eq!(
        rooms,
        vec![(2, 10, false), (1, 10, true), (0, 1_920, false)]
    );

    let too_many = |rooms: Vec<(usize, usize, bool)>, _: &[u8], buffer: Vec<i16>, _: bool| {
        (rooms, Ok((buffer, usize::MAX)))
    };
    let (_, pcm) = decoder.decode(&[1], rooms, &five, &too_many);
    assert_eq!(pcm.unwrap().len(), 10);
}

#[test]
fn decoder_failures_are_reported() {
    let decoder = OpusDecoder::new(CodecConfig::default()).unwrap();
    assert_eq!(
        decoder.decode(&[1], 0, &duration_stub, &decode_stub),
        (
            1,
            Err(CodecError::Decode(fault("opus_packet_get_nb_samples")))
        )
    );
    let broken = |calls: u32, _: &[u8], _: Vec<i16>, _: bool| {
        (
            calls + 1,
            Err::<(Vec<i16>, usize), OpusFault>(fault("opus_decode")),
        )
    };
    assert_eq!(
        decoder.decode_fec(&[], 0, &duration_stub, &broken),
        (1, Err(CodecError::Decode(fault("opus_decode"))))
    );
    assert_eq!(decoder.config().use_fec, true);
}
