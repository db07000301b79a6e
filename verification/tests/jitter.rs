use llm_rtc::audio::jitter::{
    AudioPacket, JitterBuffer, JitterBufferConfig, JitterError, PlayoutEvent,
};
use llm_rtc::audio::rtp::{
    extend_seq, nanos_to_ticks, signed_timestamp_delta, ticks_to_nanos, wire_sequence_number,
};
use llm_rtc::audio::timing::JITTER_SCALE;

const MS: u64 = 1_000_000;

/// Config with roomy latency limits so test buffers are not trimmed.
fn cfg(max_latency_ms: u32, target_latency_ms: u32) -> JitterBufferConfig {
    JitterBufferConfig {
        max_latency_ms,
        target_latency_ms,
        frame_size_ms: 20,
        ..JitterBufferConfig::default()
    }
}

/// Packet whose payload byte encodes the sequence number; timestamps advance
/// by one 20 ms frame (960 ticks at 48 kHz).
fn pkt(seq: u16) -> AudioPacket {
    AudioPacket {
        sequence_number: seq,
        timestamp: u32::from(seq) * 960,
        payload: vec![seq as u8],
    }
}

fn pkt_at(seq: u16, timestamp: u32) -> AudioPacket {
    AudioPacket {
        sequence_number: seq,
        timestamp,
        payload: vec![seq as u8],
    }
}

/// The jitter estimate in milliseconds.
fn jitter_ms(jb: &JitterBuffer) -> f64 {
    let stats = jb.stats();
    stats.current_jitter as f64 / JITTER_SCALE as f64 * 1_000.0 / f64::from(stats.sample_rate)
}

/// The startup target in milliseconds.
fn target_ms(jb: &JitterBuffer) -> f64 {
    let stats = jb.stats();
    stats.current_target_latency as f64 / f64::from(stats.sample_rate) / 1e6
}

#[test]
fn in_order_packets_pop_in_order() {
    let mut now = 0;
    let mut jb = JitterBuffer::new(cfg(200, 0));
    for seq in 0..3u16 {
        jb.push(pkt(seq), now);
    }
    for seq in 0..3u16 {
        let out = jb.pop(now).expect("packet should be available");
        assert_eq!(out.sequence_number, seq);
        assert_eq!(out.payload, vec![seq as u8]);
        now += 20 * MS;
    }
    assert_eq!(jb.stats().packets_out, 3);
}

#[test]
fn out_of_order_packets_are_reordered() {
    let mut now = 0;
    let mut jb = JitterBuffer::new(cfg(200, 0));
    jb.push(pkt(0), now);
    jb.push(pkt(2), now);
    jb.push(pkt(1), now);

    let mut seqs = Vec::new();
    for _ in 0..3 {
        seqs.push(jb.pop(now).unwrap().sequence_number);
        now += 20 * MS;
    }
    assert_eq!(seqs, vec![0, 1, 2]);
    let stats = jb.stats();
    assert_eq!(stats.packets_in, 3);
    assert_eq!(stats.packets_out, 3);
    assert_eq!(stats.packets_dropped, 0);
}

#[test]
fn late_packets_beyond_max_latency_are_dropped() {
    let mut now = 0;
    let mut jb = JitterBuffer::new(cfg(200, 0));
    jb.push(pkt(1), now);
    jb.push(pkt(3), now); // 2 is missing

    assert_eq!(jb.pop(now).unwrap().sequence_number, 1);
    assert!(jb.pop_event(now).is_none(), "sequence 2 is not due yet");

    now += 20 * MS;
    assert!(matches!(
        jb.pop_event(now),
        Some(PlayoutEvent::RecoveredWithNextPacket {
            sequence_number: 2,
            ..
        })
    ));

    // A very late arrival of 2 must be dropped, not replayed.
    assert!(!jb.push(pkt(2), now));
    now += 20 * MS;
    assert_eq!(jb.pop(now).unwrap().sequence_number, 3);
    let stats = jb.stats();
    assert_eq!(stats.packets_late, 1);
    assert_eq!(stats.packets_out, 2);
    assert_eq!(stats.packets_dropped, 1, "lost gap counted once");
}

#[test]
fn duplicates_are_ignored() {
    let now = 0;
    let mut jb = JitterBuffer::new(cfg(200, 0));
    assert!(jb.push(pkt(7), now));
    assert!(!jb.push(pkt(7), now)); // duplicate

    let stats = jb.stats();
    assert_eq!(stats.packets_in, 1, "only one copy accepted");
    assert_eq!(stats.packets_dropped, 1, "duplicate counted as dropped");

    let first = jb.pop(now).unwrap();
    assert_eq!(first.sequence_number, 7);
    assert!(
        jb.pop(now).is_none(),
        "duplicate must not produce a second playout"
    );
}

#[test]
fn adaptive_jitter_is_computed() {
    let mut jb = JitterBuffer::new(cfg(500, 40));
    // Burst arrival: the arrival spacing of zero differs from the timestamp
    // spacing of 960 ticks, so the smoothed estimate must rise above zero.
    for seq in 0..5u16 {
        jb.push(pkt(seq), 0);
    }
    let jitter_ms = jitter_ms(&jb);
    assert!(jitter_ms > 0.0, "jitter should be > 0, got {}", jitter_ms);
    // Converges toward 960 ticks = 20 ms; sanity-bound the estimate.
    assert!(jitter_ms < 25.0);
}

#[test]
fn jitter_estimate_has_the_smoothed_value() {
    let mut jb = JitterBuffer::new(cfg(500, 40));
    jb.push(pkt(0), 0);
    assert_eq!(jitter_ms(&jb), 0.0);
    // One deviation of 960 ticks gives 60 ticks: 1.25 ms.
    jb.push(pkt(1), 0);
    assert_eq!(jitter_ms(&jb), 1.25);
    assert_eq!(jb.stats().current_jitter, 60 * JITTER_SCALE);
    // 60 + (960 - 60) / 16 = 116.25 ticks.
    jb.push(pkt(2), 0);
    assert_eq!(jitter_ms(&jb), 2.421875);
}

#[test]
fn low_latency_skip_when_gap_deadline_passes() {
    let mut now = 0;
    let mut jb = JitterBuffer::new(cfg(200, 40));
    jb.push(pkt(0), now);
    jb.push(pkt(2), now); // 1 is missing

    assert!(jb.pop_event(now).is_none(), "startup target is not due");
    now += 39 * MS;
    assert!(jb.pop_event(now).is_none(), "must hold the full target depth");
    now += MS;
    assert!(matches!(
        jb.pop_event(now),
        Some(PlayoutEvent::Packet(AudioPacket {
            sequence_number: 0,
            ..
        }))
    ));

    now += 20 * MS;
    assert!(matches!(
        jb.pop_event(now),
        Some(PlayoutEvent::RecoveredWithNextPacket {
            sequence_number: 1,
            next_packet: AudioPacket {
                sequence_number: 2,
                ..
            },
            ..
        })
    ));

    now += 20 * MS;
    assert!(matches!(
        jb.pop_event(now),
        Some(PlayoutEvent::Packet(AudioPacket {
            sequence_number: 2,
            ..
        }))
    ));

    let stats = jb.stats();
    assert_eq!(stats.packets_dropped, 1, "lost packet counted as dropped");
    assert_eq!(stats.packets_out, 2);
    assert_eq!(stats.packets_late, 0);
}

#[test]
fn u16_wraparound_is_handled() {
    let mut now = 0;
    let mut jb = JitterBuffer::new(cfg(500, 0));
    let mut timestamp = u32::MAX - 1_500;
    for seq in [65_534u16, 65_535, 0, 1] {
        jb.push(pkt_at(seq, timestamp), now);
        timestamp = timestamp.wrapping_add(960);
    }
    let mut seqs = Vec::new();
    for _ in 0..4 {
        seqs.push(jb.pop(now).unwrap().sequence_number);
        now += 20 * MS;
    }
    assert_eq!(seqs, vec![65_534, 65_535, 0, 1]);
}

#[test]
fn clear_resets_for_new_stream() {
    let now = 0;
    let mut jb = JitterBuffer::new(cfg(200, 0));
    jb.push(pkt(0), now);
    jb.push(pkt(1), now);
    assert!(jb.pop(now).is_some());

    jb.clear();
    let stats = jb.stats();
    assert_eq!(
        (
            stats.packets_in,
            stats.packets_out,
            stats.packets_dropped,
            stats.packets_late
        ),
        (0, 0, 0, 0)
    );
    assert_eq!(stats.current_jitter, 0);
    assert!(jb.pop(now).is_none());

    // A brand-new sequence space can be anchored after clear().
    jb.push(pkt(100), now);
    assert_eq!(jb.pop(now).unwrap().sequence_number, 100);
}

#[test]
fn config_validation_and_sanitization() {
    let defaults = JitterBufferConfig::default();
    assert_eq!(defaults.target_latency_ms, 5);
    assert_eq!(defaults.frame_size_ms, 10);

    let bad = JitterBufferConfig {
        target_latency_ms: 100,
        max_latency_ms: 60,
        ..JitterBufferConfig::default()
    };
    assert!(matches!(
        bad.validate(),
        Err(JitterError::InvalidLatency { .. })
    ));

    // new() sanitizes instead of panicking: target clamped to max.
    let mut now = 0;
    let mut jb = JitterBuffer::new(bad);
    jb.push(pkt(0), now);
    assert!(jb.pop(now).is_none());
    now += 60 * MS;
    assert!(jb.pop(now).is_some());
}

#[test]
fn every_invalid_value_is_reported() {
    let good = JitterBufferConfig::default();
    assert_eq!(good.validate(), Ok(()));
    assert_eq!(
        JitterBufferConfig {
            target_latency_ms: 121,
            ..good
        }
        .validate(),
        Err(JitterError::InvalidLatency {
            target_latency_ms: 121,
            max_latency_ms: 120,
        })
    );
    assert_eq!(
        JitterBufferConfig {
            sample_rate: 0,
            ..good
        }
        .validate(),
        Err(JitterError::InvalidSampleRate)
    );
    assert_eq!(
        JitterBufferConfig {
            frame_size_ms: 0,
            ..good
        }
        .validate(),
        Err(JitterError::InvalidFrameSize)
    );
    assert_eq!(
        JitterBufferConfig {
            max_packets: 0,
            ..good
        }
        .validate(),
        Err(JitterError::InvalidMaxPackets)
    );
}

#[test]
fn unusable_sizes_are_replaced_by_one() {
    let mut jb = JitterBuffer::new(JitterBufferConfig {
        max_latency_ms: 0,
        target_latency_ms: 10,
        max_packets: 0,
        sample_rate: 0,
        frame_size_ms: 0,
    });
    assert!(jb.push(pkt_at(0, 0), 0));
    assert!(!jb.push(pkt_at(1, 1), 0), "room for one packet only");
    assert_eq!(jb.stats().current_target_latency, 0);
    assert_eq!(jb.pop(0).unwrap().sequence_number, 0);
    // One tick of a 1 Hz clock is a second.
    assert_eq!(jb.next_deadline(), Some(1_000_000_000));
}

#[test]
fn rtp_timestamp_gap_controls_deadline() {
    let mut now = 0;
    let mut jb = JitterBuffer::new(cfg(2_000, 0));
    jb.push(pkt_at(10, 1_000), now);
    jb.push(pkt_at(11, 49_000), now); // one second later, sequence is contiguous

    assert_eq!(jb.pop(now).unwrap().sequence_number, 10);
    now += 999 * MS;
    assert!(jb.pop(now).is_none());
    now += MS;
    assert_eq!(jb.pop(now).unwrap().sequence_number, 11);
    assert_eq!(jb.stats().packets_dropped, 0);
}

#[test]
fn consecutive_losses_emit_missing_then_fec() {
    let mut now = 0;
    let mut jb = JitterBuffer::new(cfg(500, 0));
    jb.push(pkt(0), now);
    jb.push(pkt(3), now);

    assert!(matches!(jb.pop_event(now), Some(PlayoutEvent::Packet(_))));
    now += 20 * MS;
    assert!(matches!(
        jb.pop_event(now),
        Some(PlayoutEvent::Missing {
            sequence_number: 1,
            ..
        })
    ));
    now += 20 * MS;
    assert!(matches!(
        jb.pop_event(now),
        Some(PlayoutEvent::RecoveredWithNextPacket {
            sequence_number: 2,
            ..
        })
    ));
}

#[test]
fn recovered_packet_is_played_afterwards() {
    let mut jb = JitterBuffer::new(cfg(500, 0));
    jb.push(pkt(0), 0);
    jb.push(pkt(2), 0);
    assert_eq!(jb.pop_event(0), Some(PlayoutEvent::Packet(pkt(0))));
    assert_eq!(
        jb.pop_event(20 * MS),
        Some(PlayoutEvent::RecoveredWithNextPacket {
            sequence_number: 1,
            timestamp: 960,
            next_packet: pkt(2),
        })
    );
    assert_eq!(jb.pop_event(40 * MS), Some(PlayoutEvent::Packet(pkt(2))));
    assert_eq!(jb.pop_event(60 * MS), None);
}

#[test]
fn pop_consumes_losses_silently() {
    let mut jb = JitterBuffer::new(cfg(500, 0));
    jb.push(pkt(0), 0);
    jb.push(pkt(2), 0);
    assert_eq!(jb.pop(0), Some(pkt(0)));
    assert_eq!(jb.pop(20 * MS), None);
    assert_eq!(jb.stats().packets_dropped, 1);
    assert_eq!(jb.pop(40 * MS), Some(pkt(2)));
}

#[test]
fn capacity_eviction_queues_one_missing_event() {
    let mut now = 0;
    let mut config = cfg(200, 0);
    config.max_packets = 2;
    let mut jb = JitterBuffer::new(config);
    assert!(jb.push(pkt(0), now));
    assert!(jb.push(pkt(1), now));
    assert!(!jb.push(pkt(2), now), "farthest-future packet is evicted");

    assert_eq!(jb.stats().packets_dropped, 1);
    assert_eq!(jb.pop(now).unwrap().sequence_number, 0);
    now += 20 * MS;
    assert_eq!(jb.pop(now).unwrap().sequence_number, 1);
    now += 20 * MS;
    assert!(matches!(
        jb.pop_event(now),
        Some(PlayoutEvent::Missing {
            sequence_number: 2,
            ..
        })
    ));
    assert_eq!(jb.stats().packets_dropped, 1, "eviction counted once");
    assert!(!jb.has_pending());
}

#[test]
fn a_nearer_packet_evicts_a_farther_one() {
    let mut config = cfg(200, 0);
    config.max_packets = 2;
    let mut jb = JitterBuffer::new(config);
    assert!(jb.push(pkt(0), 0));
    assert!(jb.push(pkt(5), 0));
    assert!(jb.push(pkt(1), 0), "the nearer packet stays");
    let stats = jb.stats();
    assert_eq!((stats.packets_in, stats.packets_dropped), (3, 1));
    assert!(!jb.push(pkt(5), 0), "the evicted slot is taken");
    assert_eq!(jb.stats().packets_dropped, 2);
}

#[test]
fn early_packet_is_not_discarded_by_latency_ceiling() {
    let mut now = 0;
    let mut jb = JitterBuffer::new(cfg(100, 0));
    assert!(jb.push(pkt_at(0, 0), now));

    // This packet arrives 200 ms before its RTP deadline. Concealing it at
    // that same deadline would buy no latency, so it must remain buffered.
    assert!(jb.push(pkt_at(1, 9_600), now));
    assert_eq!(jb.stats().packets_dropped, 0);
    assert_eq!(jb.pop(now).unwrap().sequence_number, 0);
    now += 200 * MS;
    assert_eq!(jb.pop(now).unwrap().sequence_number, 1);
}

#[test]
fn startup_target_adapts_to_jitter() {
    let mut now = 0;
    let mut jb = JitterBuffer::new(cfg(120, 40));
    jb.push(pkt(0), now);
    now += 70 * MS;
    jb.push(pkt(1), now);
    now += MS;
    jb.push(pkt(2), now);

    let stats = jb.stats();
    assert!(stats.current_jitter > 0);
    // 150 ticks, then 150 + (912 - 150) / 16 = 197.625 ticks.
    assert_eq!(jitter_ms(&jb), 4.1171875);
    assert!(target_ms(&jb) > 40.0);
    assert!(target_ms(&jb) <= 120.0);
    // The second packet was 50 ms slower than the first.
    assert_eq!(target_ms(&jb), 50.0);
    assert_eq!(jb.next_deadline(), Some(50 * u128::from(MS)));
}

#[test]
fn startup_target_stops_at_the_ceiling() {
    let mut jb = JitterBuffer::new(cfg(60, 40));
    jb.push(pkt(0), 0);
    jb.push(pkt(1), 500 * MS);
    assert_eq!(target_ms(&jb), 60.0);
    assert_eq!(jb.next_deadline(), Some(60 * u128::from(MS)));
}

#[test]
fn each_step_of_the_startup_depth_moves_the_deadline_to_the_nearest_nanosecond() {
    // A tick at 48 kHz lasts 20833 1/3 ns, so the transit time grows by
    // 979166 2/3 ns with each packet.
    let mut jb = JitterBuffer::new(cfg(120, 0));
    jb.push(pkt_at(0, 0), 0);
    assert_eq!(jb.next_deadline(), Some(0));
    jb.push(pkt_at(1, 1), MS);
    assert_eq!(jb.next_deadline(), Some(979_167));
    assert_eq!(jb.stats().current_target_latency, 979_167 * 48_000 - 16_000);
    jb.push(pkt_at(2, 2), 2 * MS);
    assert_eq!(jb.next_deadline(), Some(1_958_334));
    assert_eq!(jb.stats().current_target_latency, 1_958_333 * 48_000 + 16_000);

    // Whole nanoseconds are kept exactly.
    let mut jb = JitterBuffer::new(cfg(120, 0));
    jb.push(pkt_at(0, 0), 0);
    jb.push(pkt_at(1, 3), MS);
    jb.push(pkt_at(2, 6), 2 * MS);
    assert_eq!(jb.next_deadline(), Some(1_875_000));
    assert_eq!(jb.stats().current_target_latency, 1_875_000 * 48_000);
}

#[test]
fn deadlines_do_not_move_once_playing() {
    let mut jb = JitterBuffer::new(cfg(120, 0));
    jb.push(pkt(0), 0);
    assert_eq!(jb.pop(0).unwrap().sequence_number, 0);
    jb.push(pkt(1), 100 * MS);
    assert_eq!(jb.stats().current_target_latency, 0);
    assert_eq!(jb.next_deadline(), Some(20 * u128::from(MS)));
}

#[test]
fn an_earlier_packet_before_playout_moves_the_anchor() {
    let mut jb = JitterBuffer::new(cfg(200, 40));
    jb.push(pkt(5), 0);
    jb.push(pkt(4), 0);
    assert_eq!(jb.next_deadline(), Some(40 * u128::from(MS)));
    assert_eq!(jb.pop(40 * MS).unwrap().sequence_number, 4);
    assert_eq!(jb.pop(59 * MS), None);
    assert_eq!(jb.pop(60 * MS).unwrap().sequence_number, 5);
}

#[test]
fn arrival_order_does_not_matter_before_playout() {
    let mut one = JitterBuffer::new(cfg(200, 0));
    let mut other = JitterBuffer::new(cfg(200, 0));
    one.push(pkt(10), 0);
    one.push(pkt(9), 0);
    one.push(pkt(12), 0);
    other.push(pkt(10), 0);
    other.push(pkt(12), 0);
    other.push(pkt(9), 0);
    for step in 0..4u64 {
        assert_eq!(one.pop_event(step * 20 * MS), other.pop_event(step * 20 * MS));
    }
    assert!(!one.has_pending() && !other.has_pending());
}

/// Decisions and deadlines of packets that arrive together, in this order.
fn burst_decisions(order: &[u16]) -> Vec<(u128, PlayoutEvent)> {
    let mut jb = JitterBuffer::new(cfg(400, 40));
    for seq in order {
        assert!(jb.push(pkt(*seq), 7 * MS));
    }
    let mut decisions = Vec::new();
    while let Some(deadline) = jb.next_deadline() {
        assert!(jb.pop_event(deadline as u64 - 1).is_none());
        decisions.push((deadline, jb.pop_event(deadline as u64).unwrap()));
    }
    assert!(!jb.has_pending());
    decisions
}

#[test]
fn a_burst_plays_the_same_in_any_order() {
    let sorted = burst_decisions(&[10, 11, 13, 16, 17]);
    for order in [
        [17, 16, 13, 11, 10],
        [13, 10, 17, 11, 16],
        [11, 17, 10, 16, 13],
        [16, 10, 13, 17, 11],
    ] {
        assert_eq!(burst_decisions(&order), sorted);
    }

    // One decision per number, in increasing order and one frame apart.
    let numbers: Vec<(u128, u16, bool)> = sorted
        .iter()
        .map(|(deadline, event)| match event {
            PlayoutEvent::Packet(packet) => (*deadline, packet.sequence_number, true),
            PlayoutEvent::Missing { sequence_number, .. }
            | PlayoutEvent::RecoveredWithNextPacket { sequence_number, .. } => {
                (*deadline, *sequence_number, false)
            }
        })
        .collect();
    let expected: Vec<(u128, u16, bool)> = (10u16..=17)
        .map(|seq| {
            let deadline = u128::from(47 * MS + u64::from(seq - 10) * 20 * MS);
            (deadline, seq, ![12, 14, 15].contains(&seq))
        })
        .collect();
    assert_eq!(numbers, expected);
}

#[test]
fn a_burst_across_the_wrap_plays_in_order() {
    let sorted = burst_decisions(&[65_534, 65_535, 0, 1]);
    assert_eq!(burst_decisions(&[1, 65_535, 0, 65_534]), sorted);
    assert_eq!(burst_decisions(&[0, 1, 65_534, 65_535]), sorted);
}

#[test]
fn an_empty_buffer_has_no_deadline() {
    let mut jb = JitterBuffer::new(cfg(200, 0));
    assert_eq!(jb.next_deadline(), None);
    assert_eq!(jb.pop_event(u64::MAX), None);
    jb.push(pkt(0), 0);
    assert!(jb.pop(0).is_some());
    assert_eq!(jb.next_deadline(), None);
    assert_eq!(jb.pop_event(u64::MAX), None);
    assert_eq!(jb.stats().packets_dropped, 0);
    assert!(jb.has_headroom());
}

#[test]
fn sequence_numbers_extend_to_the_nearest_position() {
    assert_eq!(extend_seq(0, 65_535), 65_536);
    assert_eq!(extend_seq(65_535, 65_536), 65_535);
    assert_eq!(extend_seq(65_535, 0), -1);
    assert_eq!(extend_seq(0x8000, 0), -0x8000);
    assert_eq!(extend_seq(0x7fff, 0), 0x7fff);
    assert_eq!(wire_sequence_number(-1), 65_535);
    assert_eq!(wire_sequence_number(65_536), 0);
    for position in [-70_000i64, -1, 0, 65_535, 65_536, 1_000_000] {
        assert_eq!(extend_seq(wire_sequence_number(position), position + 100), position);
    }
}

#[test]
fn ticks_and_nanoseconds_convert() {
    assert_eq!(signed_timestamp_delta(0, u32::MAX), -1);
    assert_eq!(signed_timestamp_delta(u32::MAX, 4), 5);
    assert_eq!(ticks_to_nanos(960, 48_000), 20_000_000);
    // A third of a second to the nearest nanosecond.
    assert_eq!(ticks_to_nanos(1, 3), 333_333_333);
    assert_eq!(ticks_to_nanos(2, 3), 666_666_667);
    // Halfway between two nanoseconds: 976562.5 and 2929687.5.
    assert_eq!(ticks_to_nanos(1, 1_024), 976_562);
    assert_eq!(ticks_to_nanos(3, 1_024), 2_929_688);
    assert_eq!(nanos_to_ticks(20_000_000, 48_000), 960);
    // Half a tick is rounded up.
    assert_eq!(nanos_to_ticks(500_000_000, 1), 1);
    assert_eq!(nanos_to_ticks(499_999_999, 1), 0);
}

#[test]
fn a_due_slot_stays_due() {
    let mut jb = JitterBuffer::new(cfg(200, 40));
    jb.push(pkt(0), 0);
    assert_eq!(jb.pop(40 * MS - 1), None);
    assert_eq!(jb.pop(3_600_000 * MS).unwrap().sequence_number, 0);
}

#[test]
fn accepted_packets_are_accounted_for() {
    let mut config = cfg(200, 0);
    config.max_packets = 3;
    let mut jb = JitterBuffer::new(config);
    for seq in [0u16, 1, 4, 4, 2, 9, 3] {
        jb.push(pkt(seq), 0);
    }
    let mut buffered = 0;
    for slot in 0..10u64 {
        if let Some(PlayoutEvent::Packet(_)) = jb.pop_event(slot * 20 * MS) {
            buffered += 1;
        }
    }
    let stats = jb.stats();
    assert!(!jb.has_pending());
    assert_eq!(stats.packets_out, buffered);
    assert_eq!(stats.packets_in, 6);
    // Three evictions, one duplicate and four gaps.
    assert_eq!((stats.packets_out, stats.packets_dropped), (3, 8));
}

#[test]
fn a_valid_configuration_is_used_unchanged() {
    let config = cfg(200, 0);
    let mut jb = JitterBuffer::new(config);
    let mut cleared = JitterBuffer::new(config);
    cleared.push(pkt(9), 77);
    cleared.clear();
    for seq in [3u16, 1, 7] {
        assert_eq!(jb.push(pkt(seq), 5), cleared.push(pkt(seq), 5));
    }
    for slot in 0..8u64 {
        let now = 5 + slot * 20 * MS;
        assert_eq!(jb.pop_event(now), cleared.pop_event(now));
    }
    assert_eq!(jb.stats(), cleared.stats());
}

#[test]
fn a_stream_starts_with_its_earlier_packet() {
    for (one, other, first) in [
        (10u16, 9u16, 9u16),
        (9, 10, 9),
        (65_535, 0, 65_535),
        (0, 65_535, 65_535),
        (0, 32_767, 0),
        (32_769, 0, 32_769),
    ] {
        let mut jb = JitterBuffer::new(cfg(200, 0));
        jb.push(pkt_at(one, 0), 0);
        jb.push(pkt_at(other, 0), 0);
        assert_eq!(jb.pop(0).unwrap().sequence_number, first);
    }
}
