use llm_rtc::audio::codec::{CodecConfig, OpusFault};
use llm_rtc::audio::jitter::AudioPacket;
use llm_rtc::audio::pipeline::{AudioPipeline, AudioPipelineConfig};
use llm_rtc::peer::{
    parse_bundle_policy, parse_ice_transport_policy, stream_id, track_id, BundlePolicy,
    IceServer, IceTransportPolicy, PeerConfig,
};
use llm_rtc::session::{
    frame_duration_ns, ingest, playout_step, received_packet, resume, PlayoutSchedule,
    PlayoutStep, SessionConfig, Wakeup,
};

const MS: u64 = 1_000_000;

fn duration(calls: u32, _packet: &[u8]) -> (u32, Result<usize, OpusFault>) {
    (calls + 1, Ok(480))
}

fn decode(
    calls: u32,
    _packet: &[u8],
    buffer: Vec<i16>,
    _fec: bool,
) -> (u32, Result<(Vec<i16>, usize), OpusFault>) {
    let count = buffer.len();
    (calls + 1, Ok((buffer, count)))
}

fn packet(seq: u16) -> AudioPacket {
    AudioPacket {
        sequence_number: seq,
        timestamp: u32::from(seq) * 480,
        payload: vec![1, 2, 3],
    }
}

#[test]
fn default_peer_settings() {
    let config = PeerConfig::default();
    assert_eq!(config.ice_servers, vec!["stun:stun.l.google.com:19302"]);
    assert_eq!(config.codec_mime_type, "audio/opus");
    assert_eq!(
        config.codec_mime_type,
        webrtc::api::media_engine::MIME_TYPE_OPUS
    );
    assert_eq!(config.ice_transport_policy, "all");
    assert_eq!(config.bundle_policy, "balanced");
    let settings = config.clone().connection_settings();
    assert_eq!(
        settings.ice_servers,
        vec![IceServer {
            urls: vec!["stun:stun.l.google.com:19302".to_string()],
        }]
    );
    assert_eq!(settings.ice_transport_policy, IceTransportPolicy::All);
    assert_eq!(settings.bundle_policy, BundlePolicy::Balanced);
}

#[test]
fn every_url_becomes_a_server() {
    let config = PeerConfig {
        ice_servers: vec!["stun:a".to_string(), "turn:b".to_string()],
        ice_transport_policy: "Relay".to_string(),
        bundle_policy: "MAX-BUNDLE".to_string(),
        ..PeerConfig::default()
    };
    let settings = config.connection_settings();
    let urls: Vec<Vec<String>> = settings.ice_servers.into_iter().map(|s| s.urls).collect();
    assert_eq!(
        urls,
        vec![vec!["stun:a".to_string()], vec!["turn:b".to_string()]]
    );
    assert_eq!(settings.ice_transport_policy, IceTransportPolicy::Relay);
    assert_eq!(settings.bundle_policy, BundlePolicy::MaxBundle);
}

#[test]
fn policy_names_ignore_case_and_fall_back() {
    assert_eq!(parse_ice_transport_policy("RELAY"), IceTransportPolicy::Relay);
    assert_eq!(parse_ice_transport_policy("all"), IceTransportPolicy::All);
    assert_eq!(parse_ice_transport_policy("bogus"), IceTransportPolicy::All);
    assert_eq!(parse_bundle_policy("Max-Compat"), BundlePolicy::MaxCompat);
    assert_eq!(parse_bundle_policy("max-bundle"), BundlePolicy::MaxBundle);
    assert_eq!(parse_bundle_policy(""), BundlePolicy::Balanced);
}

#[test]
fn track_names_carry_the_number() {
    assert_eq!(track_id(42), "audio-42");
    assert_eq!(stream_id(42), "llm-rtc-stream-42");
    assert_eq!(track_id(0), "audio-0");
    assert_eq!(stream_id(u32::MAX), "llm-rtc-stream-4294967295");
    assert_ne!(track_id(1), track_id(10));
}

#[test]
fn the_session_format_reaches_the_pipeline() {
    let mut config = SessionConfig::default();
    assert_eq!(config.sample_rate, 48_000);
    assert_eq!(config.channels, 1);
    assert_eq!(config.pipeline, AudioPipelineConfig::default());
    config.sample_rate = 16_000;
    config.channels = 2;
    config.pipeline.codec.bitrate = 32_000;
    config.pipeline.jitter.max_packets = 7;
    let aligned = config.pipeline_config();
    assert_eq!(aligned.codec.sample_rate, 16_000);
    assert_eq!(aligned.codec.channels, 2);
    assert_eq!(aligned.codec.bitrate, 32_000);
    assert_eq!(aligned.jitter.sample_rate, 16_000);
    assert_eq!(aligned.jitter.max_packets, 7);
    assert_eq!(aligned.processor, config.pipeline.processor);
    assert_eq!(frame_duration_ns(&CodecConfig::default()), 20 * MS);
}

#[test]
fn a_cloned_session_configuration_is_equal() {
    let mut config = SessionConfig::default();
    config.peer.ice_servers.push("stun:stun.example.org".to_string());
    config.peer.bundle_policy = "max-compat".to_string();
    config.pipeline.codec.bitrate = 32_000;
    config.sample_rate = 16_000;
    config.channels = 2;
    let copy = config.clone();
    assert_eq!(copy.peer.ice_servers, config.peer.ice_servers);
    assert_eq!(copy.peer.codec_mime_type, config.peer.codec_mime_type);
    assert_eq!(
        copy.peer.ice_transport_policy,
        config.peer.ice_transport_policy
    );
    assert_eq!(copy.peer.bundle_policy, "max-compat");
    assert_eq!(copy.pipeline, config.pipeline);
    assert_eq!((copy.sample_rate, copy.channels), (16_000, 2));
}

#[test]
fn the_pause_is_half_a_frame_or_a_millisecond() {
    assert_eq!(
        PlayoutSchedule::new(20 * MS, 7),
        PlayoutSchedule {
            recovery_interval_ns: 10 * MS,
            next_decode_at: 7,
        }
    );
    assert_eq!(PlayoutSchedule::new(MS, 0).recovery_interval_ns, MS);
}

#[test]
fn playout_sleeps_to_the_later_of_deadline_and_pause() {
    let mut schedule = PlayoutSchedule::new(10 * MS, 0);
    let at = |time: u64| PlayoutStep::SleepUntil(u128::from(time));
    assert_eq!(schedule.plan(Some(3), true, false), at(3));
    schedule.record_decode(false, 50 * MS);
    assert_eq!(schedule.plan(Some(3), true, false), at(3));
    schedule.record_decode(true, 50 * MS);
    assert_eq!(schedule.plan(Some(3), true, false), at(55 * MS));
    assert_eq!(schedule.plan(Some(60 * u128::from(MS)), true, true), at(60 * MS));
    assert_eq!(schedule.plan(None, false, false), PlayoutStep::WaitForPacket);
    assert_eq!(schedule.plan(None, false, true), PlayoutStep::Stop);
}

#[test]
fn waits_end_as_they_should() {
    let sleep = PlayoutStep::SleepUntil(5);
    assert_eq!(resume(sleep, Wakeup::TimeReached), PlayoutStep::Decode);
    assert_eq!(resume(sleep, Wakeup::PacketReady), PlayoutStep::Reconsider);
    let wait = PlayoutStep::WaitForPacket;
    assert_eq!(resume(wait, Wakeup::PacketReady), PlayoutStep::Reconsider);
    assert_eq!(
        resume(wait, Wakeup::ReceiverChanged),
        PlayoutStep::Reconsider
    );
    assert_eq!(resume(wait, Wakeup::ReceiverLost), PlayoutStep::Stop);
    assert_eq!(
        resume(PlayoutStep::Stop, Wakeup::PacketReady),
        PlayoutStep::Stop
    );
}

#[test]
fn received_packets_take_the_front_of_the_buffer() {
    let packet = received_packet(7, 960, &[1, 2, 3, 0, 0], 3);
    assert_eq!(packet.sequence_number, 7);
    assert_eq!(packet.timestamp, 960);
    assert_eq!(packet.payload, vec![1, 2, 3]);
    assert!(received_packet(7, 960, &[], 0).payload.is_empty());
}

#[test]
fn only_a_moved_deadline_wakes_playout() {
    let mut pipeline = AudioPipeline::new(AudioPipelineConfig::default())
        .ok()
        .unwrap();
    assert_eq!(ingest(&mut pipeline, packet(5), 0), (true, true));
    let schedule = PlayoutSchedule::new(10 * MS, 0);
    let plan = playout_step(&schedule, &pipeline, false);
    assert_eq!(ingest(&mut pipeline, packet(6), 0), (true, false));
    assert_eq!(playout_step(&schedule, &pipeline, false), plan);
    assert_eq!(ingest(&mut pipeline, packet(6), 0), (false, false));
    // A slow packet deepens the startup buffer and moves the deadline.
    assert_eq!(ingest(&mut pipeline, packet(7), 60 * MS), (true, true));
}

#[test]
fn a_buffered_tail_is_played_after_the_receiver_is_done() {
    let mut config = AudioPipelineConfig::default();
    config.jitter.target_latency_ms = 20;
    let mut pipeline = AudioPipeline::new(config).ok().unwrap();
    for seq in 0..2 {
        ingest(&mut pipeline, packet(seq), 0);
    }
    let mut schedule = PlayoutSchedule::new(frame_duration_ns(&config.codec), 0);
    let mut played = Vec::new();
    let mut now = 0;
    loop {
        let step = playout_step(&schedule, &pipeline, true);
        match step {
            PlayoutStep::SleepUntil(wake) => now = wake as u64,
            PlayoutStep::Stop => break,
            other => panic!("unexpected {:?}", other),
        }
        assert_eq!(resume(step, Wakeup::TimeReached), PlayoutStep::Decode);
        let pcm = pipeline.pop_decoded(now, 0, &duration, &decode).1.unwrap();
        schedule.record_decode(pcm.is_some(), now);
        played.push((now, pcm.unwrap().len()));
    }
    assert_eq!(played, vec![(20 * MS, 480), (30 * MS, 480)]);
    assert!(!pipeline.has_pending_playout());
}

#[test]
fn a_delayed_playout_catches_up_at_twice_the_rate() {
    let mut config = AudioPipelineConfig::default();
    config.jitter.target_latency_ms = 0;
    let mut pipeline = AudioPipeline::new(config).ok().unwrap();
    for seq in 0..4 {
        ingest(&mut pipeline, packet(seq), 0);
    }
    let mut schedule = PlayoutSchedule::new(10 * MS, 0);
    let mut now = 100 * MS;
    let mut times = Vec::new();
    while let PlayoutStep::SleepUntil(wake) = playout_step(&schedule, &pipeline, true) {
        now = now.max(wake as u64);
        assert!(pipeline
            .pop_decoded(now, 0, &duration, &decode)
            .1
            .unwrap()
            .is_some());
        schedule.record_decode(true, now);
        times.push(now / MS);
    }
    assert_eq!(times, vec![100, 105, 110, 115]);
}
