use llm_rtc::audio::alignment::least_common_multiple;
use llm_rtc::audio::codec::{
    ApplicationMode, ChannelLayout, CodecConfig, CodecError, EncodeFault, EncoderSetting,
    OpusDecoder, OpusEncoder, OpusFault,
};
use llm_rtc::audio::jitter::{AudioPacket, JitterBufferConfig};
use llm_rtc::audio::pipeline::{AudioPipeline, AudioPipelineConfig, PipelineError};
use llm_rtc::audio::processor::{
    EngineConfig, EngineFault, EngineInit, EngineStats, ProcessorError,
    FRAME_SAMPLES as PROCESSOR_FRAME_SAMPLES,
};

const MS: u64 = 1_000_000;

/// Samples per 10 ms frame at 48 kHz mono.
const FRAME_SAMPLES: usize = 480;

/// Generate one frame of a 440 Hz sine wave at half of full scale.
fn sine_frame(sample_rate: u32, offset: &mut usize) -> Vec<i16> {
    (0..FRAME_SAMPLES)
        .map(|i| {
            let t = ((*offset + i) as f32) / sample_rate as f32;
            (440.0 * std::f32::consts::TAU * t).sin() * (i16::MAX as f32 / 2.0)
        })
        .map(|s| s as i16)
        .collect()
}

/// Stands for the processing engine and counts its calls.
fn pass(calls: u32, frame: [i16; 480]) -> (u32, Result<[i16; 480], EngineFault>) {
    (calls + 1, Ok(frame))
}

fn listen(calls: u32, _frame: [i16; 480]) -> (u32, Result<(), EngineFault>) {
    (calls + 1, Ok(()))
}

/// Stands for the engine library, which counts the engines that it makes.
fn create_engine(made: u32, _init: EngineInit) -> (u32, Result<u32, EngineFault>) {
    (made + 1, Ok(0))
}

fn configure(calls: u32, _config: EngineConfig) -> u32 {
    calls
}

/// Stands for an encoder: the packet is the frame length. It counts its calls.
fn encode(calls: u32, pcm: &[i16], _max_size: usize) -> (u32, Result<Vec<u8>, EncodeFault>) {
    (calls + 1, Ok((pcm.len() as u16).to_be_bytes().to_vec()))
}

fn duration(calls: u32, packet: &[u8]) -> (u32, Result<usize, OpusFault>) {
    let count = usize::from(u16::from_be_bytes([packet[0], packet[1]]));
    (calls + 1, Ok(count))
}

fn decode(
    calls: u32,
    _packet: &[u8],
    buffer: Vec<i16>,
    _fec: bool,
) -> (u32, Result<(Vec<i16>, usize), OpusFault>) {
    let count = buffer.len();
    (calls + 1, Ok((buffer, count)))
}

/// Stands for the codec library, which counts the codecs that it makes.
fn create_encoder(
    made: u32,
    _rate: u32,
    _layout: ChannelLayout,
    mode: ApplicationMode,
) -> (u32, Result<u32, OpusFault>) {
    assert_eq!(mode, ApplicationMode::Voip);
    (made + 1, Ok(0))
}

fn create_decoder(
    made: u32,
    _rate: u32,
    _layout: ChannelLayout,
) -> (u32, Result<u32, OpusFault>) {
    (made + 1, Ok(0))
}

fn tune(settings: u32, _setting: EncoderSetting) -> (u32, Result<(), OpusFault>) {
    (settings + 1, Ok(()))
}

fn opened(config: AudioPipelineConfig) -> AudioPipeline {
    let (codecs, engines, made) = AudioPipeline::open(
        config,
        0,
        &create_encoder,
        &tune,
        &create_decoder,
        0,
        &create_engine,
        &configure,
    );
    assert_eq!((codecs, engines), (2, 1));
    let (pipeline, settings, _, _) = made.ok().expect("pipeline");
    assert_eq!(settings, if config.codec.use_fec { 6 } else { 5 });
    pipeline
}

#[test]
fn new_succeeds_with_default_config() {
    let pipeline = AudioPipeline::new(AudioPipelineConfig::default());
    assert!(pipeline.is_ok());
}

#[test]
fn process_outgoing_encodes_sine_wave() {
    let mut pipeline = opened(AudioPipelineConfig::default());
    let mut frame = sine_frame(48_000, &mut 0);
    let (engine, encoder, packets) =
        pipeline.process_outgoing(&mut frame, 0, &pass, 0, &encode);
    assert_eq!((engine, encoder), (1, 1));
    let packets = packets.unwrap();

    assert!(!packets.is_empty(), "expected at least one packet");
    assert!(packets.iter().all(|p| !p.is_empty()));
}

#[test]
fn process_outgoing_into_reuses_packet_storage() {
    let mut pipeline = opened(AudioPipelineConfig::default());
    let mut frame = sine_frame(48_000, &mut 0);
    let mut packets = Vec::new();

    assert_eq!(
        pipeline.process_outgoing_into(&mut frame, &mut packets, 0, &pass, 0, &encode),
        (1, 1, Ok(()))
    );
    let capacity = packets.capacity();
    assert_eq!(
        pipeline.process_outgoing_into(&mut frame, &mut packets, 1, &pass, 1, &encode),
        (2, 2, Ok(()))
    );

    assert_eq!(packets.len(), 1);
    assert_eq!(packets.capacity(), capacity);
}

#[test]
fn partial_outgoing_chunks_wait_for_a_complete_codec_block() {
    const CHUNK_SAMPLES: usize = 240;

    for frame_ms in [10.0, 20.0] {
        let config = AudioPipelineConfig {
            codec: CodecConfig {
                frame_size_us: (frame_ms * 1_000.0) as u32,
                ..CodecConfig::default()
            },
            jitter: JitterBufferConfig {
                frame_size_ms: frame_ms as u32,
                ..JitterBufferConfig::default()
            },
            ..AudioPipelineConfig::default()
        };
        let expected_samples = (48_000.0 * frame_ms / 1_000.0) as usize;
        let chunks = expected_samples / CHUNK_SAMPLES;
        let mut pipeline = opened(config);
        let mut packets = Vec::new();

        for index in 0..chunks {
            let mut chunk = vec![1_000; CHUNK_SAMPLES];
            let (engine, encoder, produced) =
                pipeline.process_outgoing(&mut chunk, 0, &pass, 0, &encode);
            let produced = produced.unwrap();
            if index + 1 < chunks {
                assert!(produced.is_empty());
                assert_eq!((engine, encoder), (0, 0));
            } else {
                assert_eq!(engine as usize, expected_samples / 480);
                assert_eq!(encoder, 1);
                packets = produced;
            }
        }

        assert_eq!(packets.len(), 1);
        let decoder = OpusDecoder::new(config.codec).unwrap();
        assert_eq!(
            decoder
                .decode(&packets[0], 0, &duration, &decode)
                .1
                .unwrap()
                .len(),
            expected_samples
        );
    }

    assert_eq!(least_common_multiple(720, PROCESSOR_FRAME_SAMPLES), 1_440);

    let mut pipeline = opened(AudioPipelineConfig::default());
    let mut half_frame = vec![1_000; CHUNK_SAMPLES];
    assert_eq!(
        pipeline.process_outgoing(&mut half_frame, 0, &pass, 0, &encode),
        (0, 0, Ok(Vec::new()))
    );
    assert_eq!(
        pipeline.reset(0, 7, &create_engine, &configure),
        (1, 0, Ok(()))
    );
    assert_eq!(
        pipeline.process_outgoing(&mut half_frame, 0, &pass, 0, &encode),
        (0, 0, Ok(Vec::new()))
    );
}

#[test]
fn push_incoming_then_pop_decoded_round_trips() {
    let config = AudioPipelineConfig {
        jitter: JitterBufferConfig {
            target_latency_ms: 0,
            ..JitterBufferConfig::default()
        },
        ..AudioPipelineConfig::default()
    };
    let mut pipeline = opened(config);

    // Encode a sine wave with a standalone encoder using the same config.
    let encoder = OpusEncoder::new(config.codec).unwrap();
    let pcm = sine_frame(48_000, &mut 0);
    let payload = encoder.encode(&pcm, 0, &encode).1.unwrap();

    let packet = AudioPacket {
        sequence_number: 0,
        timestamp: 0,
        payload,
    };
    assert!(pipeline.push_incoming(packet, 0));

    let (calls, decoded) = pipeline.pop_decoded(0, 0, &duration, &decode);
    let decoded = decoded.unwrap().expect("packet expected");
    assert_eq!(decoded.len(), FRAME_SAMPLES);
    assert_eq!(calls, 2);
}

#[test]
fn stats_are_accessible() {
    let mut pipeline = opened(AudioPipelineConfig::default());
    let _jitter = pipeline.jitter_stats();
    let _proc = pipeline.processor_stats(EngineStats {
        has_voice: None,
        has_echo: None,
        rms_dbfs: None,
    });

    // Reset should also be callable without panicking.
    assert_eq!(
        pipeline.reset(0, 7, &create_engine, &configure),
        (1, 0, Ok(()))
    );
}

/// The packet lengths and recovery flags that a decoder was called with.
type DecoderLog = Vec<(usize, bool)>;

fn logged_duration(log: DecoderLog, packet: &[u8]) -> (DecoderLog, Result<usize, OpusFault>) {
    let (_, count) = duration(0, packet);
    (log, count)
}

fn logged_decode(
    mut log: DecoderLog,
    packet: &[u8],
    buffer: Vec<i16>,
    fec: bool,
) -> (DecoderLog, Result<(Vec<i16>, usize), OpusFault>) {
    log.push((packet.len(), fec));
    let (_, decoded) = decode(0, packet, buffer, fec);
    (log, decoded)
}

#[test]
fn consecutive_losses_use_plc_then_fec_and_preserve_next_packet() {
    let config = AudioPipelineConfig {
        jitter: JitterBufferConfig {
            target_latency_ms: 0,
            max_latency_ms: 200,
            ..JitterBufferConfig::default()
        },
        ..AudioPipelineConfig::default()
    };
    let encoder = OpusEncoder::new(config.codec).unwrap();
    let mut offset = 0;
    let mut payloads = Vec::new();
    for _ in 0..4 {
        let frame = sine_frame(48_000, &mut offset);
        offset += FRAME_SAMPLES;
        payloads.push(encoder.encode(&frame, 0, &encode).1.unwrap());
    }

    let mut now = 0;
    let mut pipeline = opened(config);

    // Packets 1 and 2 are lost. Slot 1 has no adjacent future packet and
    // uses concealment; slot 2 can recover from packet 3.
    for seq in [0u16, 3] {
        assert!(pipeline.push_incoming(
            AudioPacket {
                sequence_number: seq,
                timestamp: u32::from(seq) * FRAME_SAMPLES as u32,
                payload: payloads[usize::from(seq)].clone(),
            },
            now
        ));
    }

    let mut decoder = Vec::new();
    for expected_slot in 0..4 {
        let (after, decoded) = pipeline.pop_decoded(now, decoder, &logged_duration, &logged_decode);
        decoder = after;
        let decoded = decoded
            .unwrap()
            .unwrap_or_else(|| panic!("slot {expected_slot} should be due"));
        assert_eq!(decoded.len(), FRAME_SAMPLES);
        now += 10 * MS;
    }
    assert_eq!(
        decoder,
        vec![(2, false), (0, false), (2, true), (2, false)]
    );

    let stats = pipeline.jitter_stats();
    assert_eq!(stats.packets_dropped, 2);
    assert_eq!(stats.packets_out, 2);
    assert!(!pipeline.has_pending_playout());
}

#[test]
fn losses_are_concealed_without_error_correction() {
    let mut config = AudioPipelineConfig::default();
    config.codec.use_fec = false;
    config.jitter.target_latency_ms = 0;
    let mut pipeline = opened(config);
    for seq in [0u16, 2] {
        pipeline.push_incoming(
            AudioPacket {
                sequence_number: seq,
                timestamp: u32::from(seq) * 480,
                payload: vec![1, 224],
            },
            0,
        );
    }
    let mut decoder = Vec::new();
    for slot in 0..3u64 {
        let (after, decoded) =
            pipeline.pop_decoded(slot * 10 * MS, decoder, &logged_duration, &logged_decode);
        decoder = after;
        assert!(decoded.unwrap().is_some());
    }
    assert_eq!(decoder, vec![(2, false), (0, false), (2, false)]);
    assert_eq!(pipeline.next_playout_deadline(), None);
    assert!(pipeline.has_headroom());
}

#[test]
fn a_slot_is_played_even_if_decoding_fails() {
    let mut config = AudioPipelineConfig::default();
    config.jitter.target_latency_ms = 0;
    let mut pipeline = opened(config);
    pipeline.push_incoming(
        AudioPacket {
            sequence_number: 9,
            timestamp: 0,
            payload: vec![1, 224],
        },
        5,
    );
    assert_eq!(pipeline.next_playout_deadline(), Some(5));
    assert_eq!(
        pipeline.pop_decoded(4, 0, &duration, &decode),
        (0, Ok(None))
    );
    let broken = |calls: u32, _: &[u8], _: Vec<i16>, _: bool| {
        (
            calls + 1,
            Err::<(Vec<i16>, usize), OpusFault>(OpusFault {
                function: "opus_decode".to_string(),
                description: "corrupted stream".to_string(),
            }),
        )
    };
    assert!(matches!(
        pipeline.pop_decoded(5, 0, &duration, &broken),
        (2, Err(PipelineError::Codec(CodecError::Decode(_))))
    ));
    assert!(!pipeline.has_pending_playout());
    assert_eq!(pipeline.jitter_stats().packets_out, 1);
}

#[test]
fn outgoing_audio_is_cut_into_blocks() {
    // 2.5 ms codec frames of 120 samples and processor frames of 480.
    let mut config = AudioPipelineConfig::default();
    config.codec.frame_size_us = 2_500;
    let mut pipeline = opened(config);
    let record = |mut seen: Vec<i16>, pcm: &[i16], _: usize| {
        seen.extend_from_slice(pcm);
        (seen, Ok(vec![pcm.len() as u8]))
    };
    let mut chunk: Vec<i16> = (0..700).collect();
    let (engine, seen, packets) =
        pipeline.process_outgoing(&mut chunk, 0, &pass, Vec::new(), &record);
    assert_eq!(engine, 1);
    assert_eq!(packets, Ok(vec![vec![120]; 4]));
    assert_eq!(chunk, (0..700).collect::<Vec<i16>>());
    let mut rest: Vec<i16> = (700..960).collect();
    let (engine, seen, packets) = pipeline.process_outgoing_with_reference(
        &mut rest,
        &[0; 960],
        engine,
        &listen,
        &pass,
        seen,
        &record,
    );
    assert_eq!(engine, 4);
    assert_eq!(packets.unwrap().len(), 4);
    assert_eq!(seen, (0..960).collect::<Vec<i16>>());
}

/// Packets of a stream that is fed in these chunks, with what the processing
/// engine and the encoder saw.
fn send_in_chunks(sizes: &[usize]) -> (Vec<Vec<u8>>, Vec<Vec<i16>>, Vec<Vec<i16>>) {
    let halve = |mut seen: Vec<Vec<i16>>, frame: [i16; 480]| {
        seen.push(frame.to_vec());
        let scale = seen.len() as i16;
        (seen, Ok(frame.map(|sample| sample / 2 + scale)))
    };
    let record = |mut seen: Vec<Vec<i16>>, pcm: &[i16], _: usize| {
        seen.push(pcm.to_vec());
        let packet = vec![seen.len() as u8, pcm[0] as u8];
        (seen, Ok(packet))
    };
    let mut config = AudioPipelineConfig::default();
    config.codec.frame_size_us = 2_500;
    let mut pipeline = opened(config);
    let (mut engine, mut encoder) = (Vec::new(), Vec::new());
    let mut all = Vec::new();
    let mut packets = vec![vec![99u8]];
    let mut next = 0i16;
    for size in sizes {
        let mut chunk: Vec<i16> = (next..next + *size as i16).collect();
        next += *size as i16;
        let (e, s, done) =
            pipeline.process_outgoing_into(&mut chunk, &mut packets, engine, &halve, encoder, &record);
        assert_eq!(done, Ok(()));
        (engine, encoder) = (e, s);
        all.extend(packets.iter().cloned());
    }
    (all, engine, encoder)
}

#[test]
fn any_split_of_a_stream_sends_the_same_packets() {
    // Blocks of 480 samples, four codec frames each; 80 samples wait.
    let whole = send_in_chunks(&[2_000]);
    assert_eq!(whole.0.len(), 2_000 / 480 * 4);
    for split in [
        &[480, 480, 480, 560][..],
        &[1, 479, 1_000, 520],
        &[0, 700, 0, 0, 1_300],
        &[100; 20],
        &[1_999, 1],
    ] {
        assert_eq!(send_in_chunks(split), whole);
    }
    assert!(send_in_chunks(&[200, 279]).0.is_empty());
}

#[test]
fn outgoing_failures_are_reported() {
    let mut pipeline = opened(AudioPipelineConfig::default());
    let broken_engine = |calls: u32, _: [i16; 480]| {
        (
            calls + 1,
            Err::<[i16; 480], EngineFault>(EngineFault {
                description: "bad frame".to_string(),
            }),
        )
    };
    let broken_listener = |calls: u32, _: [i16; 480]| {
        (
            calls + 1,
            Err::<(), EngineFault>(EngineFault {
                description: "bad playback".to_string(),
            }),
        )
    };
    let broken_encoder =
        |calls: u32, _: &[i16], _: usize| (calls + 1, Err::<Vec<u8>, _>(EncodeFault::Poisoned));
    let mut packets = vec![vec![1u8]];
    assert!(matches!(
        pipeline.process_outgoing_with_reference_into(
            &mut vec![0; 480],
            &[0; 480],
            &mut packets,
            0,
            &broken_listener,
            &pass,
            0,
            &encode
        ),
        (1, 0, Err(PipelineError::Processor(ProcessorError::Process(_))))
    ));
    assert_eq!(packets, vec![vec![1]]);
    assert!(matches!(
        pipeline.process_outgoing_into(
            &mut vec![0; 480],
            &mut packets,
            0,
            &broken_engine,
            0,
            &encode
        ),
        (1, 0, Err(PipelineError::Processor(ProcessorError::Process(_))))
    ));
    assert!(packets.is_empty());
    assert_eq!(
        pipeline.process_outgoing(&mut vec![0; 480], 0, &pass, 0, &broken_encoder),
        (1, 1, Err(PipelineError::Codec(CodecError::Poisoned)))
    );
    assert_eq!(
        pipeline.on_render(&[0; 100], 0, &broken_listener),
        (0, Ok(()))
    );
    assert!(matches!(
        pipeline.on_render(&[0; 380], 0, &broken_listener),
        (1, Err(PipelineError::Processor(ProcessorError::Process(_))))
    ));
}

#[test]
fn every_part_can_refuse_to_open() {
    let config = AudioPipelineConfig::default();
    let out_of_memory = || OpusFault {
        function: "create".to_string(),
        description: "out of memory".to_string(),
    };
    let no_encoder = |made: u32, _: u32, _: ChannelLayout, _: ApplicationMode| {
        (made, Err::<u32, OpusFault>(out_of_memory()))
    };
    let no_decoder =
        |made: u32, _: u32, _: ChannelLayout| (made, Err::<u32, OpusFault>(out_of_memory()));
    let no_engine = |made: u32, _: EngineInit| {
        (
            made,
            Err::<u32, EngineFault>(EngineFault {
                description: "no engine".to_string(),
            }),
        )
    };
    assert!(matches!(
        AudioPipeline::open(
            config,
            0,
            &no_encoder,
            &tune,
            &create_decoder,
            0,
            &create_engine,
            &configure
        ),
        (0, 0, Err(PipelineError::Codec(CodecError::Encode(_))))
    ));
    assert!(matches!(
        AudioPipeline::open(
            config,
            0,
            &create_encoder,
            &tune,
            &no_decoder,
            0,
            &create_engine,
            &configure
        ),
        (1, 0, Err(PipelineError::Codec(CodecError::InvalidConfig(_))))
    ));
    assert!(matches!(
        AudioPipeline::open(
            config,
            0,
            &create_encoder,
            &tune,
            &create_decoder,
            0,
            &no_engine,
            &configure
        ),
        (2, 0, Err(PipelineError::Processor(ProcessorError::Config(_))))
    ));
    let mut bad = config;
    bad.codec.sample_rate = 1;
    assert!(matches!(
        AudioPipeline::open(
            bad,
            0,
            &create_encoder,
            &tune,
            &create_decoder,
            0,
            &create_engine,
            &configure
        ),
        (0, 0, Err(PipelineError::Codec(CodecError::InvalidConfig(_))))
    ));
    assert!(matches!(
        AudioPipeline::new(bad),
        Err(PipelineError::Codec(CodecError::InvalidConfig(_)))
    ));
}

#[test]
fn a_failed_reset_keeps_the_engine() {
    let mut pipeline = opened(AudioPipelineConfig::default());
    let no_engine = |made: u32, _: EngineInit| {
        (
            made,
            Err::<u32, EngineFault>(EngineFault {
                description: "no engine".to_string(),
            }),
        )
    };
    assert!(matches!(
        pipeline.reset(0, 7, &no_engine, &configure),
        (0, 7, Err(EngineFault { .. }))
    ));
}

#[test]
fn least_common_multiples() {
    assert_eq!(least_common_multiple(480, 480), 480);
    assert_eq!(least_common_multiple(960, 480), 960);
    assert_eq!(least_common_multiple(120, 480), 480);
    assert_eq!(least_common_multiple(441, 480), 70_560);
    assert_eq!(least_common_multiple(0, 480), 0);
}

/// A severe trace must still produce one decoded frame per RTP slot. Payload
/// loss may select recovery or concealment, but buffer pressure must never
/// silently shorten the stream.
#[test]
fn severe_jitter_trace_preserves_decoded_frame_continuity() {
    const CONTENT_FRAMES: usize = 1_000;
    const GUARD_FRAMES: usize = 10;

    let config = AudioPipelineConfig {
        jitter: JitterBufferConfig {
            target_latency_ms: 5,
            max_latency_ms: 115,
            ..JitterBufferConfig::default()
        },
        ..AudioPipelineConfig::default()
    };
    let encoder = OpusEncoder::new(config.codec).unwrap();
    let mut pipeline = opened(config);

    let mut random_state = 0xa5a5_5a5a_u32;
    let mut random = || {
        random_state ^= random_state << 13;
        random_state ^= random_state >> 17;
        random_state ^= random_state << 5;
        f64::from(random_state) / f64::from(u32::MAX)
    };
    let mut offset = 0;
    let mut arrivals = Vec::new();
    for frame_index in 0..(CONTENT_FRAMES + GUARD_FRAMES) {
        let is_guard = frame_index >= CONTENT_FRAMES;
        let jitter_ms = if is_guard {
            0.0
        } else {
            (random() * 2.0 - 1.0) * 40.0
        };
        let dropped = !is_guard && frame_index != 0 && random() < 0.10;
        let frame = if is_guard {
            vec![0; FRAME_SAMPLES]
        } else {
            let frame = sine_frame(48_000, &mut offset);
            offset += FRAME_SAMPLES;
            frame
        };
        let payload = encoder.encode(&frame, 0, &encode).1.unwrap();
        if !dropped {
            arrivals.push((
                frame_index as f64 * 10.0 + 50.0 + jitter_ms,
                AudioPacket {
                    sequence_number: 10_000_u16.wrapping_add(frame_index as u16),
                    timestamp: 900_000_u32.wrapping_add((frame_index * FRAME_SAMPLES) as u32),
                    payload,
                },
            ));
        }
    }
    arrivals.sort_by(|left, right| left.0.partial_cmp(&right.0).unwrap());

    let end_ms = arrivals.last().unwrap().0 + 2_000.0;
    let mut next_arrival = 0;
    let mut decoded_frames = 0;
    let mut tick_ms = 0.0;
    while tick_ms <= end_ms && decoded_frames < CONTENT_FRAMES {
        while next_arrival < arrivals.len() && arrivals[next_arrival].0 <= tick_ms {
            let (arrival_ms, packet) = &arrivals[next_arrival];
            pipeline.push_incoming(packet.clone(), (*arrival_ms * 1e6).round() as u64);
            next_arrival += 1;
        }
        let now = (tick_ms * 1e6_f64).round() as u64;
        if pipeline
            .pop_decoded(now, 0, &duration, &decode)
            .1
            .unwrap()
            .is_some()
        {
            decoded_frames += 1;
        }
        // Model the session's 2x catch-up ceiling after an empty-buffer loss.
        tick_ms += 5.0;
    }

    assert_eq!(
        decoded_frames, CONTENT_FRAMES,
        "severe trace silently lost a decoded playout slot"
    );
    assert!(pipeline.jitter_stats().packets_late < CONTENT_FRAMES as u64 / 10);
    assert!(
        tick_ms <= 10_100.0,
        "severe trace accumulated excessive turn-ingress delay: {tick_ms} ms"
    );
}
