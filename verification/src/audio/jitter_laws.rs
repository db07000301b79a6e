//! What the jitter buffer promises of sequences of operations.
//!
//! The laws are stated over the model that the buffer's contracts use:
//! [`JitterModel::received`] is what a push does, [`JitterModel::is_due`],
//! [`JitterModel::slot_event`] and [`JitterModel::played`] are what a pop does.

use vstd::prelude::*;

use crate::audio::jitter::JitterBufferConfig;
use crate::audio::jitter_model;
use crate::audio::jitter_model::{EventModel, JitterModel, PacketModel};
use crate::audio::rtp;
use crate::audio::timing;
use crate::audio::timing::Arrival;

verus! {

/// Sequence number that a playout decision is about.
pub open spec fn event_sequence(event: EventModel) -> u16 {
    match event {
        EventModel::Packet(packet) => packet.sequence_number,
        EventModel::Missing { sequence_number, .. } => sequence_number,
        EventModel::RecoveredWithNextPacket { sequence_number, .. } => sequence_number,
    }
}

/// State after playing `count` slots in a row.
pub open spec fn played_slots(buffer: JitterModel, count: nat) -> JitterModel
    decreases count,
{
    if count == 0 {
        buffer
    } else {
        played_slots(buffer, (count - 1) as nat).played()
    }
}

/// Every decision is about the slot the decoder expects, and the decoder then
/// expects the slot after it: playout is strictly in sequence order and no
/// slot is skipped or repeated.
pub proof fn law_slots_play_in_order(buffer: JitterModel)
    requires
        buffer.wf(),
        buffer.has_headroom(),
    ensures
        event_sequence(buffer.slot_event()) == rtp::wire_sequence(buffer.next_seq as int),
        buffer.played().next_seq == buffer.next_seq + 1,
{
    assert(buffer.packets.contains_key(buffer.next_seq) ==> rtp::wire_sequence(
        buffer.next_seq as int,
    ) == buffer.packets[buffer.next_seq].sequence_number);
}

/// However many slots are played in a row while slots await playout, their
/// decisions carry consecutive sequence numbers.
pub proof fn law_playout_runs_in_sequence_order(buffer: JitterModel, count: nat)
    requires
        buffer.wf(),
        buffer.has_headroom(),
        buffer.packets_out + count < u64::MAX,
        buffer.packets_dropped + count < u64::MAX,
        buffer.next_seq + count <= i64::MAX - 0x8000,
        forall|earlier: nat| earlier < count ==> (#[trigger] played_slots(
            buffer,
            earlier,
        )).pending(),
    ensures
        event_sequence(played_slots(buffer, count).slot_event()) == rtp::wire_sequence(
            buffer.next_seq + count,
        ),
{
    lemma_played_slots_wf(buffer, count);
    law_slots_play_in_order(played_slots(buffer, count));
}

/// Playing slots in a row keeps the state well-formed and moves the counters by
/// at most the number of slots.
proof fn lemma_played_slots_wf(buffer: JitterModel, count: nat)
    requires
        buffer.wf(),
        buffer.has_headroom(),
        buffer.packets_out + count < u64::MAX,
        buffer.packets_dropped + count < u64::MAX,
        buffer.next_seq + count <= i64::MAX - 0x8000,
        forall|earlier: nat| earlier < count ==> (#[trigger] played_slots(
            buffer,
            earlier,
        )).pending(),
    ensures
        ({
            let after = played_slots(buffer, count);
            &&& after.wf()
            &&& after.has_headroom()
            &&& after.next_seq == buffer.next_seq + count
            &&& after.packets_in == buffer.packets_in
            &&& after.packets_late == buffer.packets_late
            &&& after.packets_out <= buffer.packets_out + count
            &&& after.packets_dropped <= buffer.packets_dropped + count
        }),
    decreases count,
{
    if count > 0 {
        lemma_played_slots_wf(buffer, (count - 1) as nat);
        jitter_model::lemma_played_wf(played_slots(buffer, (count - 1) as nat));
    }
}

/// Once playout has begun, no packet moves the decoder back.
pub proof fn law_decoder_never_rewinds(buffer: JitterModel, packet: PacketModel, now: u64)
    requires
        buffer.wf(),
        buffer.has_headroom(),
        buffer.playing,
    ensures
        buffer.received(packet, now).playing,
        buffer.received(packet, now).next_seq == buffer.next_seq,
        buffer.played().playing,
{
}

/// A later RTP timestamp never has an earlier deadline, across the wraparound
/// of timestamps.
pub proof fn law_deadlines_follow_timestamps(buffer: JitterModel, earlier: u32, later: u32)
    requires
        buffer.wf(),
        rtp::timestamp_advance(buffer.timing.anchor_timestamp, earlier) <= rtp::timestamp_advance(
            buffer.timing.anchor_timestamp,
            later,
        ),
    ensures
        buffer.timing.deadline_of(earlier, buffer.config.sample_rate) <= buffer.timing.deadline_of(
            later,
            buffer.config.sample_rate,
        ),
{
    rtp::law_tick_duration_is_monotonic(
        rtp::timestamp_advance(buffer.timing.anchor_timestamp, earlier),
        rtp::timestamp_advance(buffer.timing.anchor_timestamp, later),
        buffer.config.sample_rate as int,
    );
}

/// A lost slot takes one frame of the timeline: the slot after it is due one
/// frame later if it is lost as well, and no delay is added.
pub proof fn law_lost_slot_takes_one_frame(buffer: JitterModel)
    requires
        buffer.wf(),
        buffer.has_headroom(),
        buffer.pending(),
        !buffer.knows(buffer.next_seq),
        !buffer.knows((buffer.next_seq + 1) as i64),
    ensures
        buffer.played().pending(),
        buffer.played().next_deadline() == Some(
            buffer.timing.deadline_of(
                rtp::timestamp_after(buffer.next_timestamp, buffer.config.frame_ticks()),
                buffer.config.sample_rate,
            ),
        ),
{
    assert(buffer.packets.remove(buffer.next_seq) =~= buffer.packets);
    assert(buffer.evicted.remove(buffer.next_seq) =~= buffer.evicted);
}

/// Nothing is played without a slot awaiting playout: an empty buffer yields
/// no loss events, whatever the time.
pub proof fn law_empty_buffer_is_silent(buffer: JitterModel, now: u64)
    requires
        !buffer.pending(),
    ensures
        buffer.next_deadline() is None,
        !buffer.is_due(now),
{
}

/// A slot that is due stays due until it is played.
pub proof fn law_due_slot_stays_due(buffer: JitterModel, now: u64, later: u64)
    requires
        buffer.is_due(now),
        now <= later,
    ensures
        buffer.is_due(later),
{
}

/// A buffered packet is played as it is when its slot comes, without a loss,
/// however large the timestamp gap before it.
pub proof fn law_timestamp_gap_is_not_a_loss(buffer: JitterModel)
    requires
        buffer.packets.contains_key(buffer.next_seq),
    ensures
        buffer.slot_event() == EventModel::Packet(buffer.packets[buffer.next_seq]),
        buffer.slot_timestamp() == buffer.packets[buffer.next_seq].timestamp,
        buffer.played().packets_dropped == buffer.packets_dropped,
{
}

/// Recovering a lost slot from the following packet leaves that packet in the
/// buffer, and the next decision is that packet.
pub proof fn law_recovery_keeps_next_packet(buffer: JitterModel)
    requires
        buffer.wf(),
        buffer.has_headroom(),
        buffer.slot_event() is RecoveredWithNextPacket,
    ensures
        buffer.played().slot_event() == EventModel::Packet(
            buffer.slot_event()->RecoveredWithNextPacket_next_packet,
        ),
{
}

/// A packet for a slot that has been played is late: it is counted, and
/// nothing else changes.
pub proof fn law_played_slot_is_never_replayed(
    buffer: JitterModel,
    packet: PacketModel,
    now: u64,
)
    requires
        buffer.wf(),
        buffer.has_headroom(),
        buffer.started,
        packet.sequence_number == rtp::wire_sequence(buffer.next_seq as int),
    ensures
        buffer.played().is_late(packet),
        buffer.played().received(packet, now) == (JitterModel {
            packets_late: (buffer.packets_late + 1) as u64,
            ..buffer.played()
        }),
{
    rtp::law_extension_inverts_wrapping(buffer.next_seq as int, buffer.next_seq + 1);
}

/// A second packet with the sequence number of one just accepted is not
/// accepted: it is counted as dropped and nothing else changes.
pub proof fn law_duplicate_is_ignored(
    buffer: JitterModel,
    packet: PacketModel,
    copy: PacketModel,
    now: u64,
    later: u64,
)
    requires
        buffer.wf(),
        buffer.has_headroom(),
        buffer.accepts(packet),
        copy.sequence_number == packet.sequence_number,
    ensures
        buffer.received(packet, now).is_duplicate(copy),
        !buffer.received(packet, now).accepts(copy),
        buffer.received(packet, now).received(copy, later) == (JitterModel {
            packets_dropped: (buffer.received(packet, now).packets_dropped + 1) as u64,
            ..buffer.received(packet, now)
        }),
{
    let slot = buffer.slot_of(packet);
    let reference = if buffer.started {
        buffer.next_seq as int
    } else {
        packet.sequence_number as int
    };
    rtp::lemma_extended_sequence(packet.sequence_number, reference);
    let after = buffer.received(packet, now);
    let stored = buffer.anchored(packet, now).rewound(slot, packet.timestamp).stored(
        slot,
        packet,
        now,
    );
    if stored.packets.len() > stored.config.max_packets {
        jitter_model::lemma_last_slot_exists(stored.packets);
    }
    assert(after.knows(slot));
    assert(after.slot_of(copy) == slot);
    jitter_model::lemma_received_wf(buffer, packet, now);
}

/// An accepted packet adds its slot to the slots that will be played and takes
/// none away, even when the capacity limit evicts a packet.
pub proof fn law_accepted_packet_adds_its_slot(
    buffer: JitterModel,
    packet: PacketModel,
    now: u64,
    slot: i64,
)
    requires
        buffer.wf(),
        buffer.has_headroom(),
        buffer.accepts(packet),
    ensures
        buffer.received(packet, now).knows(slot) <==> buffer.knows(slot) || slot
            == buffer.slot_of(packet),
{
    let own = buffer.slot_of(packet);
    let stored = buffer.anchored(packet, now).rewound(own, packet.timestamp).stored(
        own,
        packet,
        now,
    );
    if stored.packets.len() > stored.config.max_packets {
        jitter_model::lemma_last_slot_exists(stored.packets);
    }
}

/// An evicted packet still occupies its slot: it plays as one loss with the
/// packet's own timestamp, and is not counted as dropped a second time.
pub proof fn law_evicted_packet_plays_as_one_loss(buffer: JitterModel)
    requires
        buffer.wf(),
        buffer.has_headroom(),
        buffer.evicted.contains_key(buffer.next_seq),
    ensures
        buffer.slot_event() == (EventModel::Missing {
            sequence_number: rtp::wire_sequence(buffer.next_seq as int),
            timestamp: buffer.evicted[buffer.next_seq],
        }),
        buffer.played().packets_dropped == buffer.packets_dropped,
        !buffer.played().knows(buffer.next_seq),
{
}

/// While there is room, an accepted packet is kept, however early it arrives.
pub proof fn law_early_packet_is_kept(buffer: JitterModel, packet: PacketModel, now: u64)
    requires
        buffer.wf(),
        buffer.has_headroom(),
        buffer.accepts(packet),
        buffer.packets.len() < buffer.config.max_packets,
    ensures
        buffer.received(packet, now).packets == buffer.packets.insert(
            buffer.slot_of(packet),
            packet,
        ),
        buffer.received(packet, now).evicted == buffer.evicted,
        buffer.received(packet, now).packets_dropped == buffer.packets_dropped,
{
}

/// Two packets received before playout end up in the same places whichever of
/// them comes first, as long as there is room and their slots lie within half
/// the sequence space of each other.
pub proof fn law_arrival_order_does_not_matter(
    buffer: JitterModel,
    one: PacketModel,
    other: PacketModel,
    now: u64,
    later: u64,
)
    requires
        buffer.wf(),
        buffer.has_headroom(),
        buffer.started,
        !buffer.playing,
        buffer.accepts(one),
        buffer.accepts(other),
        buffer.slot_of(one) != buffer.slot_of(other),
        -0x7fff <= buffer.slot_of(one) - buffer.slot_of(other) <= 0x7fff,
        buffer.packets.len() + 2 <= buffer.config.max_packets,
    ensures
        ({
            let first = buffer.received(one, now).received(other, later);
            let second = buffer.received(other, now).received(one, later);
            &&& first.packets == second.packets
            &&& first.evicted == second.evicted
            &&& first.next_seq == second.next_seq
            &&& first.next_timestamp == second.next_timestamp
            &&& first.timing.anchor_timestamp == second.timing.anchor_timestamp
            &&& first.slot_event() == second.slot_event()
        }),
{
    let a = buffer.slot_of(one);
    let b = buffer.slot_of(other);
    rtp::lemma_extended_sequence(one.sequence_number, buffer.next_seq as int);
    rtp::lemma_extended_sequence(other.sequence_number, buffer.next_seq as int);
    let with_one = buffer.received(one, now);
    let with_other = buffer.received(other, now);
    rtp::law_extension_inverts_wrapping(b as int, with_one.next_seq as int);
    rtp::law_extension_inverts_wrapping(a as int, with_other.next_seq as int);
    assert(with_one.slot_of(other) == b);
    assert(with_other.slot_of(one) == a);
    let first = with_one.received(other, later);
    let second = with_other.received(one, later);
    assert(first.packets =~= buffer.packets.insert(a, one).insert(b, other));
    assert(second.packets =~= buffer.packets.insert(b, other).insert(a, one));
    assert(first.packets =~= second.packets);
}

/// Of the first two packets of a stream the one that is earlier in sequence is
/// played first, whichever arrives first. Sequence numbers half the number
/// space apart are in no order.
pub proof fn law_stream_starts_with_its_earlier_packet(
    config: JitterBufferConfig,
    one: PacketModel,
    other: PacketModel,
    now: u64,
    later: u64,
)
    requires
        config.is_sane(),
        config.max_packets >= 2,
        one.sequence_number != other.sequence_number,
        one.sequence_number - other.sequence_number != 0x8000,
        one.sequence_number - other.sequence_number != -0x8000,
    ensures
        JitterModel::fresh(config).received(one, now).received(other, later).slot_event()
            == JitterModel::fresh(config).received(other, now).received(one, later).slot_event(),
        JitterModel::fresh(config).received(one, now).received(other, later).slot_event()
            == EventModel::Packet(
            if rtp::extended_sequence(other.sequence_number, one.sequence_number as int)
                < one.sequence_number {
                other
            } else {
                one
            },
        ),
{
    lemma_first_two(config, one, other, now, later);
    lemma_first_two(config, other, one, now, later);
    rtp::lemma_extended_sequence(other.sequence_number, one.sequence_number as int);
    rtp::lemma_extended_sequence(one.sequence_number, other.sequence_number as int);
}

/// What a stream starts with after two packets.
proof fn lemma_first_two(
    config: JitterBufferConfig,
    one: PacketModel,
    other: PacketModel,
    now: u64,
    later: u64,
)
    requires
        config.is_sane(),
        config.max_packets >= 2,
        one.sequence_number != other.sequence_number,
    ensures
        JitterModel::fresh(config).received(one, now).received(other, later).slot_event()
            == EventModel::Packet(
            if rtp::extended_sequence(other.sequence_number, one.sequence_number as int)
                < one.sequence_number {
                other
            } else {
                one
            },
        ),
{
    let fresh = JitterModel::fresh(config);
    rtp::lemma_extended_sequence(one.sequence_number, one.sequence_number as int);
    rtp::lemma_extended_sequence(other.sequence_number, one.sequence_number as int);
    let slot = one.sequence_number as i64;
    let first = fresh.received(one, now);
    assert(fresh.slot_of(one) == slot);
    assert(first.packets =~= Map::empty().insert(slot, one));
    assert(first.evicted =~= Map::empty());
    let next = first.slot_of(other);
    assert(next != slot);
    let second = first.received(other, later);
    assert(second.packets =~= Map::empty().insert(slot, one).insert(next, other));
}

/// Once playout has begun, no packet moves a deadline: every RTP timestamp
/// keeps its deadline and the startup depth is fixed.
pub proof fn law_deadlines_are_stable(
    buffer: JitterModel,
    packet: PacketModel,
    now: u64,
    timestamp: u32,
)
    requires
        buffer.wf(),
        buffer.has_headroom(),
        buffer.playing,
    ensures
        buffer.received(packet, now).timing.deadline_of(timestamp, buffer.config.sample_rate)
            == buffer.timing.deadline_of(timestamp, buffer.config.sample_rate),
        buffer.received(packet, now).timing.target == buffer.timing.target,
        buffer.played().timing == buffer.timing,
{
}

/// The startup depth is at least the configured target and at most the
/// configured maximum; until playout begins it is no deeper than the transit
/// spread observed so far asks for. The first deadline lies at least the
/// configured target after the first arrival.
pub proof fn law_startup_delay_is_bounded(buffer: JitterModel)
    requires
        buffer.wf(),
        buffer.started,
    ensures
        buffer.timing.first is Some,
        buffer.config.target_latency_ms * rtp::NANOS_PER_MILLI * buffer.config.sample_rate
            <= buffer.timing.target <= buffer.config.max_latency_ms * rtp::NANOS_PER_MILLI
            * buffer.config.sample_rate,
        !buffer.playing && buffer.timing.target > buffer.config.target_latency_ms
            * rtp::NANOS_PER_MILLI * buffer.config.sample_rate ==> buffer.timing.target
            <= buffer.timing.max_transit,
        buffer.timing.deadline_of(buffer.timing.anchor_timestamp, buffer.config.sample_rate)
            >= buffer.timing.first->0.at + buffer.config.target_latency_ms * rtp::NANOS_PER_MILLI,
{
    let rate = buffer.config.sample_rate as int;
    assert(rtp::nanos_of_ticks(0, rate) == 0) by {
        rtp::law_nearest_keeps_whole_numbers(0, rate);
    }
}

/// A packet moves the first deadline by as much as it deepens the startup
/// buffer, to the nearest nanosecond, and never back.
pub proof fn law_first_deadline_follows_the_depth(
    buffer: JitterModel,
    packet: PacketModel,
    now: u64,
)
    requires
        buffer.wf(),
        buffer.has_headroom(),
        buffer.started,
    ensures
        ({
            let after = buffer.received(packet, now).timing;
            let moved = after.anchor_deadline - buffer.timing.anchor_deadline;
            let deepened = after.target - buffer.timing.target;
            &&& moved >= 0
            &&& deepened >= 0
            &&& -buffer.config.sample_rate <= 2 * (moved * buffer.config.sample_rate - deepened)
                <= buffer.config.sample_rate
        }),
{
    let rate = buffer.config.sample_rate as int;
    let arrival = Arrival { at: now, timestamp: packet.timestamp };
    let limits = buffer.config.limits();
    timing::lemma_step(buffer.timing, arrival, limits, buffer.playing);
    assert(0 * rate == 0);
}

/// The first deadline lies exactly the startup depth after the first arrival,
/// as long as the packets are whole nanoseconds apart on the RTP clock.
pub proof fn law_first_deadline_lies_the_depth_after_arrival(
    buffer: JitterModel,
    packet: PacketModel,
    now: u64,
)
    requires
        buffer.wf(),
        buffer.has_headroom(),
        buffer.timing.is_exact(buffer.config.sample_rate),
        buffer.timing.first matches Some(first) ==> (rtp::timestamp_advance(
            first.timestamp,
            packet.timestamp,
        ) * rtp::NANOS_PER_SECOND) % buffer.config.sample_rate as int == 0,
    ensures
        buffer.received(packet, now).timing.is_exact(buffer.config.sample_rate),
        buffer.played().timing.is_exact(buffer.config.sample_rate),
{
    let arrival = Arrival { at: now, timestamp: packet.timestamp };
    let limits = buffer.config.limits();
    let slot = buffer.slot_of(packet);
    if buffer.accepts(packet) {
        let anchored = buffer.anchored(packet, now);
        if !buffer.started {
            timing::lemma_anchored_wf(buffer.timing, arrival, limits);
        }
        timing::lemma_exact_step(
            anchored.rewound(slot, packet.timestamp).timing,
            arrival,
            limits,
            buffer.playing,
        );
    }
}

/// Every packet ever accepted was played, is still buffered, or was counted as
/// dropped.
pub proof fn law_accepted_packets_are_accounted_for(buffer: JitterModel)
    requires
        buffer.wf(),
    ensures
        buffer.packets_out + buffer.packets.len() <= buffer.packets_in,
        buffer.packets_in <= buffer.packets_out + buffer.packets.len() + buffer.packets_dropped,
        buffer.packets.len() <= buffer.config.max_packets,
{
}

/// Playing slots one after the other reaches every slot that awaits playout
/// and then stops: the buffer stays pending up to its last slot and is empty
/// after it.
pub proof fn law_tail_drains(buffer: JitterModel, last: i64, count: nat)
    requires
        buffer.wf(),
        buffer.has_headroom(),
        buffer.knows(last),
        forall|slot: i64| #[trigger] buffer.knows(slot) ==> slot <= last,
        last < i64::MAX,
        count <= last + 1 - buffer.next_seq,
    ensures
        played_slots(buffer, count).next_seq == buffer.next_seq + count,
        played_slots(buffer, count).pending() <==> buffer.next_seq + count <= last,
{
    lemma_played_slots(buffer, last, count);
    let after = played_slots(buffer, count);
    assert(buffer.packets.contains_key(last) ==> buffer.next_seq <= last);
    assert(buffer.evicted.contains_key(last) ==> buffer.next_seq <= last);
    if after.next_seq <= last {
        assert(after.knows(last));
        if after.packets.contains_key(last) {
            assert(after.packets.dom().contains(last));
            assert(after.packets.len() > 0);
        } else {
            assert(after.evicted.dom().contains(last));
            assert(after.evicted.len() > 0);
        }
    } else {
        assert forall|slot: i64| !after.knows(slot) by {
            if after.knows(slot) {
                assert(buffer.knows(slot));
            }
        }
        assert(after.packets =~= Map::empty()) by {
            assert forall|slot: i64| !after.packets.contains_key(slot) by {
                assert(!after.knows(slot));
            }
        }
        assert(after.evicted =~= Map::empty()) by {
            assert forall|slot: i64| !after.evicted.contains_key(slot) by {
                assert(!after.knows(slot));
            }
        }
    }
}

/// After playing a number of slots, exactly the later slots remain.
proof fn lemma_played_slots(buffer: JitterModel, last: i64, count: nat)
    requires
        buffer.wf(),
        last < i64::MAX,
        count <= last + 1 - buffer.next_seq,
    ensures
        ({
            let after = played_slots(buffer, count);
            &&& after.next_seq == buffer.next_seq + count
            &&& after.packets.dom().finite()
            &&& after.evicted.dom().finite()
            &&& forall|slot: i64| #[trigger]
                after.knows(slot) <==> buffer.knows(slot) && slot >= buffer.next_seq + count
        }),
    decreases count,
{
    if count == 0 {
        assert forall|slot: i64| #[trigger] buffer.knows(slot) implies slot
            >= buffer.next_seq by {
            assert(buffer.packets.contains_key(slot) ==> buffer.next_seq <= slot);
            assert(buffer.evicted.contains_key(slot) ==> buffer.next_seq <= slot);
        }
    } else {
        lemma_played_slots(buffer, last, (count - 1) as nat);
        let previous = played_slots(buffer, (count - 1) as nat);
        let after = previous.played();
        assert forall|slot: i64| #[trigger]
            after.knows(slot) <==> buffer.knows(slot) && slot >= buffer.next_seq + count by {
            assert(after.knows(slot) <==> previous.knows(slot) && slot != previous.next_seq);
        }
    }
}

/// A configuration that passes validation is used unchanged, and every other
/// configuration is replaced by one that would pass.
pub proof fn law_valid_configuration_is_kept(config: JitterBufferConfig)
    ensures
        config.sanitized().is_sane(),
        config.is_sane() ==> config.sanitized() == config,
{
}

/// A cleared buffer cannot be told from a new one with its configuration.
pub proof fn law_cleared_buffer_is_new(buffer: JitterModel)
    requires
        buffer.wf(),
    ensures
        JitterModel::fresh(buffer.config) == JitterModel::fresh(buffer.config.sanitized()),
{
}

} // verus!
