//! What single operations on a jitter buffer do.
//!
//! The laws relate the state before an operation, its arguments, its result and
//! the state after it. Positions, distances and roundings are given by what they
//! satisfy, so that each law can be read without looking up a definition.

use vstd::prelude::*;

use crate::audio::jitter::{
    AudioPacket, JitterBuffer, JitterBufferConfig, JitterError, JitterStats, PlayoutEvent,
};
use crate::audio::jitter_model;
use crate::audio::jitter_model::{JitterModel, PacketModel};
use crate::audio::rtp;
use crate::audio::timing;
use crate::audio::timing::Arrival;

verus! {

/// The position a sequence number stands for: the only one that carries the
/// number within half the number space of the decoder position. The first
/// packet stands at its own number.
pub open spec fn stands_for(buffer: JitterModel, number: u16, slot: i64) -> bool {
    &&& (slot - number) % 0x1_0000 == 0
    &&& if buffer.started {
        buffer.next_seq - 0x8000 <= slot <= buffer.next_seq + 0x7fff
    } else {
        slot == number
    }
}

/// The position has been played: playout has begun and the decoder is past it.
pub open spec fn is_past(buffer: JitterModel, slot: i64) -> bool {
    buffer.playing && slot < buffer.next_seq
}

/// The position holds a packet or held one that was evicted.
pub open spec fn is_taken(buffer: JitterModel, slot: i64) -> bool {
    buffer.packets.contains_key(slot) || buffer.evicted.contains_key(slot)
}

/// A packet for a position that has been played is refused and counted as late,
/// and nothing else changes. No other packet is counted as late.
pub proof fn law_only_played_positions_make_packets_late(
    buffer: &mut JitterBuffer,
    packet: AudioPacket,
    now: u64,
    accepted: bool,
    slot: i64,
)
    requires
        old(buffer).wf(),
        old(buffer)@.has_headroom(),
        call_ensures(JitterBuffer::push, (buffer, packet, now), accepted),
        stands_for(old(buffer)@, packet.sequence_number, slot),
    ensures
        is_past(old(buffer)@, slot) ==> !accepted && final(buffer)@ == (JitterModel {
            packets_late: (old(buffer)@.packets_late + 1) as u64,
            ..old(buffer)@
        }),
        !is_past(old(buffer)@, slot) ==> final(buffer)@.packets_late
            == old(buffer)@.packets_late,
{
    old(buffer).lemma_wf();
    lemma_slot(old(buffer)@, packet@, slot);
}

/// A packet for a position that is taken is refused and counted as dropped, and
/// nothing else changes.
pub proof fn law_second_packet_for_a_position_is_refused(
    buffer: &mut JitterBuffer,
    packet: AudioPacket,
    now: u64,
    accepted: bool,
    slot: i64,
)
    requires
        old(buffer).wf(),
        old(buffer)@.has_headroom(),
        call_ensures(JitterBuffer::push, (buffer, packet, now), accepted),
        stands_for(old(buffer)@, packet.sequence_number, slot),
        !is_past(old(buffer)@, slot),
        is_taken(old(buffer)@, slot),
    ensures
        !accepted,
        final(buffer)@ == (JitterModel {
            packets_dropped: (old(buffer)@.packets_dropped + 1) as u64,
            ..old(buffer)@
        }),
{
    old(buffer).lemma_wf();
    lemma_slot(old(buffer)@, packet@, slot);
}

/// While there is room, every packet for a free position that has not been
/// played is kept as it is, however far ahead of the decoder it lies.
pub proof fn law_packet_for_a_free_position_is_kept(
    buffer: &mut JitterBuffer,
    packet: AudioPacket,
    now: u64,
    accepted: bool,
    slot: i64,
)
    requires
        old(buffer).wf(),
        old(buffer)@.has_headroom(),
        call_ensures(JitterBuffer::push, (buffer, packet, now), accepted),
        stands_for(old(buffer)@, packet.sequence_number, slot),
        !is_past(old(buffer)@, slot),
        !is_taken(old(buffer)@, slot),
        old(buffer)@.packets.len() < old(buffer)@.config.max_packets,
    ensures
        accepted,
        final(buffer)@.packets == old(buffer)@.packets.insert(slot, packet@),
        final(buffer)@.packets[slot].payload == packet.payload@,
        final(buffer)@.packets[slot].timestamp == packet.timestamp,
        final(buffer)@.packets[slot].sequence_number == packet.sequence_number,
        final(buffer)@.evicted == old(buffer)@.evicted,
        final(buffer)@.packets_dropped == old(buffer)@.packets_dropped,
{
    old(buffer).lemma_wf();
    lemma_slot(old(buffer)@, packet@, slot);
}

/// In a full buffer, a packet for a free position that has not been played
/// pushes out the one that lies farthest ahead, which may be itself. The evicted
/// position keeps its timestamp and is counted as dropped.
pub proof fn law_full_buffer_gives_up_the_farthest_packet(
    buffer: &mut JitterBuffer,
    packet: AudioPacket,
    now: u64,
    accepted: bool,
    slot: i64,
    farthest: i64,
)
    requires
        old(buffer).wf(),
        old(buffer)@.has_headroom(),
        call_ensures(JitterBuffer::push, (buffer, packet, now), accepted),
        stands_for(old(buffer)@, packet.sequence_number, slot),
        !is_past(old(buffer)@, slot),
        !is_taken(old(buffer)@, slot),
        old(buffer)@.packets.len() == old(buffer)@.config.max_packets,
        farthest == slot || old(buffer)@.packets.contains_key(farthest),
        slot <= farthest,
        forall|other: i64| #[trigger]
            old(buffer)@.packets.contains_key(other) ==> other <= farthest,
    ensures
        accepted <==> farthest != slot,
        final(buffer)@.packets == old(buffer)@.packets.insert(slot, packet@).remove(farthest),
        final(buffer)@.evicted == old(buffer)@.evicted.insert(
            farthest,
            if farthest == slot {
                packet.timestamp
            } else {
                old(buffer)@.packets[farthest].timestamp
            },
        ),
        final(buffer)@.packets_dropped == old(buffer)@.packets_dropped + 1,
{
    old(buffer).lemma_wf();
    lemma_slot(old(buffer)@, packet@, slot);
    let stored = old(buffer)@.packets.insert(slot, packet@);
    assert(jitter_model::is_last_slot(stored, farthest));
    jitter_model::lemma_last_slot(stored, farthest);
}

/// A packet that takes a position is counted once, and the decoder expects the
/// earliest position: the first packet of a stream sets it, and before playout
/// an earlier packet moves it back. Playout does not begin by it.
pub proof fn law_decoder_expects_the_earliest_position(
    buffer: &mut JitterBuffer,
    packet: AudioPacket,
    now: u64,
    accepted: bool,
    slot: i64,
)
    requires
        old(buffer).wf(),
        old(buffer)@.has_headroom(),
        call_ensures(JitterBuffer::push, (buffer, packet, now), accepted),
        stands_for(old(buffer)@, packet.sequence_number, slot),
        !is_past(old(buffer)@, slot),
        !is_taken(old(buffer)@, slot),
    ensures
        final(buffer)@.packets_in == old(buffer)@.packets_in + 1,
        final(buffer)@.packets_out == old(buffer)@.packets_out,
        final(buffer)@.started,
        final(buffer)@.playing == old(buffer)@.playing,
        final(buffer)@.config == old(buffer)@.config,
        !old(buffer)@.started || slot < old(buffer)@.next_seq ==> final(buffer)@.next_seq == slot
            && final(buffer)@.next_timestamp == packet.timestamp,
        old(buffer)@.started && slot >= old(buffer)@.next_seq ==> final(buffer)@.next_seq
            == old(buffer)@.next_seq && final(buffer)@.next_timestamp
            == old(buffer)@.next_timestamp,
{
    old(buffer).lemma_wf();
    lemma_slot(old(buffer)@, packet@, slot);
}

/// The first packet of a stream is due the configured target after its arrival,
/// and everything later is measured against it.
pub proof fn law_first_packet_anchors_the_stream(
    buffer: &mut JitterBuffer,
    packet: AudioPacket,
    now: u64,
    accepted: bool,
)
    requires
        old(buffer).wf(),
        old(buffer)@.has_headroom(),
        !old(buffer)@.started,
        call_ensures(JitterBuffer::push, (buffer, packet, now), accepted),
    ensures
        accepted,
        final(buffer)@.timing.first == Some(Arrival { at: now, timestamp: packet.timestamp }),
        final(buffer)@.timing.last == Some(Arrival { at: now, timestamp: packet.timestamp }),
        final(buffer)@.timing.anchor_timestamp == packet.timestamp,
        final(buffer)@.timing.anchor_deadline == now + old(buffer)@.config.target_latency_ms
            * 1_000_000,
        final(buffer)@.timing.target == old(buffer)@.config.target_latency_ms * 1_000_000
            * old(buffer)@.config.sample_rate,
        final(buffer)@.timing.jitter == 0,
{
    old(buffer).lemma_wf();
    let before = old(buffer)@;
    let arrival = Arrival { at: now, timestamp: packet.timestamp };
    lemma_slot(before, packet@, packet.sequence_number as i64);
    timing::lemma_anchored_wf(before.timing, arrival, before.config.limits());
    timing::lemma_idle_wf(before.config.limits());
    assert(0 * before.config.sample_rate as int == 0);
    assert(before.packets =~= Map::empty());
}

/// Before playout, a packet whose transit took longer than that of the first one
/// deepens the startup buffer just enough to cover the difference, up to the
/// configured maximum; the deadlines move by as much, to the nearest nanosecond.
/// Once playout has begun the depth and the deadlines stay.
///
/// `behind` is how far the packet lies behind the first one on the RTP clock.
pub proof fn law_slow_packet_deepens_the_startup_buffer(
    buffer: &mut JitterBuffer,
    packet: AudioPacket,
    now: u64,
    accepted: bool,
    slot: i64,
    behind: int,
)
    requires
        old(buffer).wf(),
        old(buffer)@.has_headroom(),
        old(buffer)@.started,
        call_ensures(JitterBuffer::push, (buffer, packet, now), accepted),
        stands_for(old(buffer)@, packet.sequence_number, slot),
        !is_past(old(buffer)@, slot),
        !is_taken(old(buffer)@, slot),
        0 <= behind < 0x1_0000_0000,
        (old(buffer)@.timing.first->0.timestamp + behind - packet.timestamp) % 0x1_0000_0000 == 0,
    ensures
        ({
            let before = old(buffer)@.timing;
            let after = final(buffer)@.timing;
            let rate = old(buffer)@.config.sample_rate as int;
            let ceiling = old(buffer)@.config.max_latency_ms * 1_000_000 * rate;
            let excess = (now - before.first->0.at) * rate - behind * 1_000_000_000;
            &&& after.first == before.first
            &&& old(buffer)@.playing ==> after.target == before.target && after.anchor_deadline
                == before.anchor_deadline
            &&& !old(buffer)@.playing && excess <= before.target ==> after.target
                == before.target && after.anchor_deadline == before.anchor_deadline
            &&& !old(buffer)@.playing && before.target < excess <= ceiling ==> after.target
                == excess
            &&& !old(buffer)@.playing && excess > ceiling ==> after.target == ceiling
            &&& rtp::is_nearest(
                after.anchor_deadline - before.anchor_deadline,
                after.target - before.target,
                rate,
            )
            &&& after.anchor_timestamp == (if slot < old(buffer)@.next_seq {
                packet.timestamp
            } else {
                before.anchor_timestamp
            })
        }),
{
    old(buffer).lemma_wf();
    let model = old(buffer)@;
    let before = model.timing;
    let rate = model.config.sample_rate as int;
    let limits = model.config.limits();
    let first = before.first->0;
    let arrival = Arrival { at: now, timestamp: packet.timestamp };
    lemma_slot(model, packet@, slot);
    rtp::law_advance_leads_to_the_timestamp(first.timestamp, packet.timestamp, behind);
    timing::lemma_depth_step(before, arrival, limits, model.playing);
    let after = final(buffer)@.timing;
    rtp::law_rounding_finds_the_nearest(
        after.target - before.target,
        rate,
        after.anchor_deadline - before.anchor_deadline,
    );
    if now < first.at {
        assert((now - first.at) * rate <= 0) by (nonlinear_arith)
            requires
                now < first.at,
                rate > 0,
        ;
    }
}

/// The jitter estimate moves by a sixteenth of the way to how much the spacing of
/// two arrivals deviates from the spacing of their timestamps, in either
/// direction; the first packet only starts the comparison.
///
/// `spacing` is the time between the arrivals in ticks, and `distance` the signed
/// way from the earlier timestamp to the later one, less than half the timestamp
/// space either way.
pub proof fn law_jitter_follows_the_deviation_of_spacings(
    buffer: &mut JitterBuffer,
    packet: AudioPacket,
    now: u64,
    accepted: bool,
    slot: i64,
    spacing: int,
    distance: int,
)
    requires
        old(buffer).wf(),
        old(buffer)@.has_headroom(),
        old(buffer)@.started,
        call_ensures(JitterBuffer::push, (buffer, packet, now), accepted),
        stands_for(old(buffer)@, packet.sequence_number, slot),
        !is_past(old(buffer)@, slot),
        !is_taken(old(buffer)@, slot),
        old(buffer)@.timing.last is Some,
        timing::is_spacing(
            old(buffer)@.timing.last->0.at,
            now,
            old(buffer)@.config.sample_rate,
            spacing,
        ),
        -0x8000_0000 <= distance < 0x8000_0000,
        (old(buffer)@.timing.last->0.timestamp + distance - packet.timestamp) % 0x1_0000_0000
            == 0,
    ensures
        ({
            let deviation = if spacing >= distance {
                spacing - distance
            } else {
                distance - spacing
            };
            let exact = 15 * old(buffer)@.timing.jitter + deviation
                * 0x1000_0000_0000_0000;
            &&& 16 * final(buffer)@.timing.jitter <= exact < 16 * final(buffer)@.timing.jitter
                + 16
            &&& final(buffer)@.timing.last == Some(
                Arrival { at: now, timestamp: packet.timestamp },
            )
        }),
{
    old(buffer).lemma_wf();
    let model = old(buffer)@;
    let last = model.timing.last->0;
    let arrival = Arrival { at: now, timestamp: packet.timestamp };
    lemma_slot(model, packet@, slot);
    timing::law_deviation_compares_signed_spacings(
        last,
        arrival,
        model.config.sample_rate,
        spacing,
        distance,
    );
    timing::lemma_observed_wf(model.timing, arrival, model.config.limits(), model.playing);
}

/// Where a number stands is where the buffer puts its packet.
pub proof fn lemma_slot(buffer: JitterModel, packet: PacketModel, slot: i64)
    requires
        buffer.has_headroom(),
        stands_for(buffer, packet.sequence_number, slot),
    ensures
        buffer.slot_of(packet) == slot,
{
    let reference = if buffer.started {
        buffer.next_seq as int
    } else {
        packet.sequence_number as int
    };
    rtp::law_unfolding_finds_the_only_near_position(
        packet.sequence_number,
        reference,
        slot as int,
    );
}

/// The timestamp of the position that the decoder expects: that of its packet,
/// that of the packet that was evicted from it, or the prediction.
pub open spec fn is_expected_timestamp(buffer: JitterModel, timestamp: u32) -> bool {
    &&& buffer.packets.contains_key(buffer.next_seq) ==> timestamp
        == buffer.packets[buffer.next_seq].timestamp
    &&& !buffer.packets.contains_key(buffer.next_seq) && buffer.evicted.contains_key(
        buffer.next_seq,
    ) ==> timestamp == buffer.evicted[buffer.next_seq]
    &&& !is_taken(buffer, buffer.next_seq) ==> timestamp == buffer.next_timestamp
}

/// A number of nanoseconds on the clock is the deadline of a timestamp: it lies
/// behind the anchor by what the ticks between them last, to the nearest
/// nanosecond.
pub open spec fn is_deadline(buffer: JitterModel, timestamp: u32, deadline: int) -> bool {
    exists|ahead: int|
        0 <= ahead < 0x1_0000_0000 && #[trigger] ((buffer.timing.anchor_timestamp + ahead
            - timestamp) % 0x1_0000_0000) == 0 && rtp::is_nearest(
            deadline - buffer.timing.anchor_deadline,
            ahead * 1_000_000_000,
            buffer.config.sample_rate as int,
        )
}

/// Nothing is played from an empty buffer, nor before the deadline of the
/// expected position; from then on that position is played.
pub proof fn law_position_is_played_from_its_deadline_on(
    buffer: &mut JitterBuffer,
    now: u64,
    event: Option<PlayoutEvent>,
    timestamp: u32,
    deadline: int,
)
    requires
        old(buffer).wf(),
        old(buffer)@.has_headroom(),
        call_ensures(JitterBuffer::pop_event, (buffer, now), event),
        is_expected_timestamp(old(buffer)@, timestamp),
        is_deadline(old(buffer)@, timestamp, deadline),
    ensures
        event is Some <==> deadline <= now && exists|slot: i64| #[trigger]
            is_taken(old(buffer)@, slot),
        event is None ==> final(buffer)@ == old(buffer)@,
{
    old(buffer).lemma_wf();
    lemma_deadline(old(buffer)@, timestamp, deadline);
    lemma_pending(old(buffer)@);
}

/// The expected packet is played as it was received if it is there.
pub proof fn law_expected_packet_is_played_as_received(
    buffer: &mut JitterBuffer,
    now: u64,
    event: PlayoutEvent,
)
    requires
        old(buffer).wf(),
        old(buffer)@.has_headroom(),
        call_ensures(JitterBuffer::pop_event, (buffer, now), Some(event)),
    ensures
        event is Packet <==> old(buffer)@.packets.contains_key(old(buffer)@.next_seq),
        event matches PlayoutEvent::Packet(packet) ==> {
            let held = old(buffer)@.packets[old(buffer)@.next_seq];
            &&& packet.sequence_number == held.sequence_number
            &&& (packet.sequence_number - old(buffer)@.next_seq) % 0x1_0000 == 0
            &&& packet.timestamp == held.timestamp
            &&& packet.payload@ == held.payload
            &&& final(buffer)@.packets_out == old(buffer)@.packets_out + 1
            &&& final(buffer)@.packets_dropped == old(buffer)@.packets_dropped
        },
{
    old(buffer).lemma_wf();
    assert(event@ == old(buffer)@.slot_event());
    assert(old(buffer)@.packets.contains_key(old(buffer)@.next_seq) ==> rtp::wire_sequence(
        old(buffer)@.next_seq as int,
    ) == old(buffer)@.packets[old(buffer)@.next_seq].sequence_number);
}

/// A position without a packet is reported as lost, with its number and
/// timestamp. It comes with the packet right behind it if that one is there and
/// the position was not evicted. A gap is counted as dropped; an eviction was
/// counted before.
pub proof fn law_lost_position_is_reported(
    buffer: &mut JitterBuffer,
    now: u64,
    event: PlayoutEvent,
    timestamp: u32,
)
    requires
        old(buffer).wf(),
        old(buffer)@.has_headroom(),
        call_ensures(JitterBuffer::pop_event, (buffer, now), Some(event)),
        !old(buffer)@.packets.contains_key(old(buffer)@.next_seq),
        is_expected_timestamp(old(buffer)@, timestamp),
    ensures
        ({
            let before = old(buffer)@;
            let following = (before.next_seq + 1) as i64;
            let recoverable = !before.evicted.contains_key(before.next_seq)
                && before.packets.contains_key(following);
            &&& event is RecoveredWithNextPacket <==> recoverable
            &&& event is Missing <==> !recoverable
            &&& match event {
                PlayoutEvent::Packet(_) => false,
                PlayoutEvent::Missing { sequence_number, timestamp: lost } => lost == timestamp
                    && (sequence_number - before.next_seq) % 0x1_0000 == 0,
                PlayoutEvent::RecoveredWithNextPacket {
                    sequence_number,
                    timestamp: lost,
                    next_packet,
                } => {
                    &&& lost == timestamp
                    &&& (sequence_number - before.next_seq) % 0x1_0000 == 0
                    &&& next_packet.payload@ == before.packets[following].payload
                    &&& next_packet.timestamp == before.packets[following].timestamp
                    &&& next_packet.sequence_number == before.packets[following].sequence_number
                },
            }
            &&& final(buffer)@.packets_out == before.packets_out
            &&& final(buffer)@.packets_dropped == before.packets_dropped + (
            if before.evicted.contains_key(before.next_seq) {
                0int
            } else {
                1int
            })
        }),
{
    old(buffer).lemma_wf();
    assert(event@ == old(buffer)@.slot_event());
}

/// Playing a position moves the decoder to the next one and predicts that it is
/// one frame later; every other position keeps what it holds.
///
/// `frame` is the length of a frame in ticks.
pub proof fn law_playing_moves_on_by_one_frame(
    buffer: &mut JitterBuffer,
    now: u64,
    event: PlayoutEvent,
    timestamp: u32,
    frame: int,
)
    requires
        old(buffer).wf(),
        old(buffer)@.has_headroom(),
        call_ensures(JitterBuffer::pop_event, (buffer, now), Some(event)),
        is_expected_timestamp(old(buffer)@, timestamp),
        frame * 1_000 <= old(buffer)@.config.sample_rate * old(buffer)@.config.frame_size_ms
            < frame * 1_000 + 1_000,
    ensures
        final(buffer)@.next_seq == old(buffer)@.next_seq + 1,
        final(buffer)@.playing,
        (final(buffer)@.next_timestamp - timestamp - frame) % 0x1_0000_0000 == 0,
        final(buffer)@.packets == old(buffer)@.packets.remove(old(buffer)@.next_seq),
        final(buffer)@.evicted == old(buffer)@.evicted.remove(old(buffer)@.next_seq),
        final(buffer)@.config == old(buffer)@.config,
        final(buffer)@.started == old(buffer)@.started,
        final(buffer)@.timing == old(buffer)@.timing,
        final(buffer)@.packets_in == old(buffer)@.packets_in,
        final(buffer)@.packets_late == old(buffer)@.packets_late,
{
    old(buffer).lemma_wf();
    let product = old(buffer)@.config.sample_rate * old(buffer)@.config.frame_size_ms;
    assert(product / 1_000 == frame);
    rtp::law_moved_timestamp_is_ticks_ahead(timestamp, old(buffer)@.config.frame_ticks());
}

/// Popping packets only consumes the same positions at the same times as popping
/// events, and gives the packets among them.
pub proof fn law_popping_packets_skips_losses(
    buffer: &mut JitterBuffer,
    other: &mut JitterBuffer,
    now: u64,
    packet: Option<AudioPacket>,
    event: Option<PlayoutEvent>,
)
    requires
        old(buffer).wf(),
        old(buffer)@.has_headroom(),
        old(other)@ == old(buffer)@,
        call_ensures(JitterBuffer::pop, (buffer, now), packet),
        call_ensures(JitterBuffer::pop_event, (other, now), event),
    ensures
        final(buffer)@ == final(other)@,
        packet matches Some(packet) ==> event matches Some(PlayoutEvent::Packet(played))
            && played@ == packet@,
        packet is None ==> !(event matches Some(PlayoutEvent::Packet(_))),
{
    old(buffer).lemma_wf();
}

/// The next deadline is that of the expected position, and there is one exactly
/// while a position holds or held a packet.
pub proof fn law_next_deadline_is_that_of_the_expected_position(
    buffer: JitterBuffer,
    found: Option<u128>,
    pending: bool,
    timestamp: u32,
    deadline: int,
)
    requires
        buffer.wf(),
        call_ensures(JitterBuffer::next_deadline, (&buffer,), found),
        call_ensures(JitterBuffer::has_pending, (&buffer,), pending),
        is_expected_timestamp(buffer@, timestamp),
        is_deadline(buffer@, timestamp, deadline),
    ensures
        pending <==> exists|slot: i64| #[trigger] is_taken(buffer@, slot),
        found is Some <==> pending,
        found matches Some(found) ==> found == deadline,
{
    buffer.lemma_wf();
    lemma_deadline(buffer@, timestamp, deadline);
    lemma_pending(buffer@);
}

/// The snapshot shows the counters, the jitter estimate and the startup depth as
/// they are.
pub proof fn law_snapshot_shows_the_state(buffer: JitterBuffer, stats: JitterStats)
    requires
        buffer.wf(),
        call_ensures(JitterBuffer::stats, (&buffer,), stats),
    ensures
        stats.packets_in == buffer@.packets_in,
        stats.packets_out == buffer@.packets_out,
        stats.packets_dropped == buffer@.packets_dropped,
        stats.packets_late == buffer@.packets_late,
        stats.current_jitter == buffer@.timing.jitter,
        stats.sample_rate == buffer@.config.sample_rate,
        stats.current_target_latency == buffer@.timing.target,
{
}

/// A buffer that has seen nothing: no packets, no counts, nothing to measure
/// against.
pub open spec fn is_untouched(buffer: JitterModel) -> bool {
    &&& forall|slot: i64| !#[trigger] is_taken(buffer, slot)
    &&& !buffer.started
    &&& !buffer.playing
    &&& buffer.timing.first is None
    &&& buffer.timing.last is None
    &&& buffer.next_seq == 0
    &&& buffer.next_timestamp == 0
    &&& buffer.timing.anchor_timestamp == 0
    &&& buffer.timing.anchor_deadline == 0
    &&& buffer.timing.max_transit == 0
    &&& buffer.timing.jitter == 0
    &&& buffer.timing.target == buffer.config.target_latency_ms * 1_000_000
        * buffer.config.sample_rate
    &&& buffer.packets_in == 0
    &&& buffer.packets_out == 0
    &&& buffer.packets_dropped == 0
    &&& buffer.packets_late == 0
}

/// The settings that are used for given ones: each value as it is, or the nearest
/// usable one where it is not. There is room for at least one packet, at least one
/// tick per second and one millisecond per frame, and the target is no higher than
/// the maximum.
pub open spec fn is_used_for(config: JitterBufferConfig, used: JitterBufferConfig) -> bool {
    &&& used.max_latency_ms == config.max_latency_ms
    &&& config.target_latency_ms <= config.max_latency_ms ==> used.target_latency_ms
        == config.target_latency_ms
    &&& config.target_latency_ms > config.max_latency_ms ==> used.target_latency_ms
        == config.max_latency_ms
    &&& config.max_packets > 0 ==> used.max_packets == config.max_packets
    &&& config.max_packets == 0 ==> used.max_packets == 1
    &&& config.sample_rate > 0 ==> used.sample_rate == config.sample_rate
    &&& config.sample_rate == 0 ==> used.sample_rate == 1
    &&& config.frame_size_ms > 0 ==> used.frame_size_ms == config.frame_size_ms
    &&& config.frame_size_ms == 0 ==> used.frame_size_ms == 1
}

/// A new buffer is untouched and uses the given settings.
pub proof fn law_new_buffer_uses_the_configuration(
    config: JitterBufferConfig,
    buffer: JitterBuffer,
)
    requires
        call_ensures(JitterBuffer::new, (config,), buffer),
    ensures
        is_untouched(buffer@),
        is_used_for(config, buffer@.config),
{
    timing::lemma_idle_wf(config.sanitized().limits());
}

/// Clearing leaves an untouched buffer with the same configuration.
pub proof fn law_cleared_buffer_is_untouched(buffer: &mut JitterBuffer)
    requires
        old(buffer).wf(),
        call_ensures(JitterBuffer::clear, (buffer,), ()),
    ensures
        is_untouched(final(buffer)@),
        final(buffer)@.config == old(buffer)@.config,
{
    old(buffer).lemma_wf();
    timing::lemma_idle_wf(old(buffer)@.config.limits());
}

/// A configuration passes validation exactly if every value is usable; otherwise
/// the error names an unusable value, and no earlier one in the order latency,
/// clock rate, frame duration, capacity is unusable.
pub proof fn law_validation_names_the_first_unusable_value(
    config: JitterBufferConfig,
    checked: Result<(), JitterError>,
)
    requires
        call_ensures(JitterBufferConfig::validate, (&config,), checked),
    ensures
        checked is Ok <==> config.target_latency_ms <= config.max_latency_ms && config.sample_rate
            >= 1 && config.frame_size_ms >= 1 && config.max_packets >= 1,
        match checked {
            Ok(()) => true,
            Err(JitterError::InvalidLatency { target_latency_ms, max_latency_ms }) => {
                &&& target_latency_ms == config.target_latency_ms
                &&& max_latency_ms == config.max_latency_ms
                &&& target_latency_ms > max_latency_ms
            },
            Err(JitterError::InvalidSampleRate) => config.sample_rate == 0
                && config.target_latency_ms <= config.max_latency_ms,
            Err(JitterError::InvalidFrameSize) => config.frame_size_ms == 0 && config.sample_rate
                > 0 && config.target_latency_ms <= config.max_latency_ms,
            Err(JitterError::InvalidMaxPackets) => config.max_packets == 0
                && config.frame_size_ms > 0 && config.sample_rate > 0 && config.target_latency_ms
                <= config.max_latency_ms,
        },
{
}

/// A copy of a packet has its number, its timestamp and its payload.
pub proof fn law_copied_packet_is_the_same(packet: AudioPacket, copy: AudioPacket)
    requires
        call_ensures(AudioPacket::clone, (&packet,), copy),
    ensures
        copy.sequence_number == packet.sequence_number,
        copy.timestamp == packet.timestamp,
        copy.payload@ == packet.payload@,
{
}

/// What the deadline of a timestamp satisfies is the deadline that is kept.
proof fn lemma_deadline(buffer: JitterModel, timestamp: u32, deadline: int)
    requires
        buffer.wf(),
        is_expected_timestamp(buffer, timestamp),
        is_deadline(buffer, timestamp, deadline),
    ensures
        buffer.next_deadline() matches Some(found) ==> found == deadline,
{
    let ahead = choose|ahead: int|
        0 <= ahead < 0x1_0000_0000 && #[trigger] ((buffer.timing.anchor_timestamp + ahead
            - timestamp) % 0x1_0000_0000) == 0 && rtp::is_nearest(
            deadline - buffer.timing.anchor_deadline,
            ahead * 1_000_000_000,
            buffer.config.sample_rate as int,
        );
    rtp::law_advance_leads_to_the_timestamp(buffer.timing.anchor_timestamp, timestamp, ahead);
    rtp::law_ticks_last_their_share_of_a_second(
        ahead,
        buffer.config.sample_rate as int,
        deadline - buffer.timing.anchor_deadline,
    );
}

/// Something awaits playout exactly while a position is taken.
pub proof fn lemma_pending(buffer: JitterModel)
    requires
        buffer.packets.dom().finite(),
        buffer.evicted.dom().finite(),
    ensures
        buffer.pending() <==> exists|slot: i64| #[trigger] is_taken(buffer, slot),
{
    if buffer.packets.len() > 0 {
        assert(is_taken(buffer, buffer.packets.dom().choose()));
    }
    if buffer.evicted.len() > 0 {
        assert(is_taken(buffer, buffer.evicted.dom().choose()));
    }
    if exists|slot: i64| #[trigger] is_taken(buffer, slot) {
        let slot = choose|slot: i64| #[trigger] is_taken(buffer, slot);
        if buffer.packets.contains_key(slot) {
            assert(buffer.packets.dom().contains(slot));
        } else {
            assert(buffer.evicted.dom().contains(slot));
        }
    }
}

/// There is headroom exactly if no counter has reached its limit and the decoder
/// position is half a number space away from its own.
pub proof fn law_headroom_is_one_more_of_everything(buffer: JitterBuffer, headroom: bool)
    requires
        call_ensures(JitterBuffer::has_headroom, (&buffer,), headroom),
    ensures
        headroom <==> {
            &&& buffer@.packets_in < 0xffff_ffff_ffff_ffff
            &&& buffer@.packets_out < 0xffff_ffff_ffff_ffff
            &&& buffer@.packets_dropped < 0xffff_ffff_ffff_ffff
            &&& buffer@.packets_late < 0xffff_ffff_ffff_ffff
            &&& -0x8000_0000_0000_0000 + 0x8000 <= buffer@.next_seq <= 0x7fff_ffff_ffff_ffff
                - 0x8000
        },
        headroom == buffer@.has_headroom(),
{
}

/// A copy of a playout decision is the same decision with the same contents.
pub proof fn law_copied_decision_is_the_same(event: PlayoutEvent, copy: PlayoutEvent)
    requires
        call_ensures(PlayoutEvent::clone, (&event,), copy),
    ensures
        match (event, copy) {
            (PlayoutEvent::Packet(one), PlayoutEvent::Packet(other)) => {
                &&& other.sequence_number == one.sequence_number
                &&& other.timestamp == one.timestamp
                &&& other.payload@ == one.payload@
            },
            (
                PlayoutEvent::Missing { sequence_number, timestamp },
                PlayoutEvent::Missing { sequence_number: number, timestamp: time },
            ) => number == sequence_number && time == timestamp,
            (
                PlayoutEvent::RecoveredWithNextPacket { sequence_number, timestamp, next_packet },
                PlayoutEvent::RecoveredWithNextPacket {
                    sequence_number: number,
                    timestamp: time,
                    next_packet: other,
                },
            ) => {
                &&& number == sequence_number
                &&& time == timestamp
                &&& other.sequence_number == next_packet.sequence_number
                &&& other.timestamp == next_packet.timestamp
                &&& other.payload@ == next_packet.payload@
            },
            _ => false,
        },
{
    assert(copy@ == event@);
}

/// The default settings pass validation and are used as they are.
pub proof fn law_default_settings_are_used_as_they_are(
    config: JitterBufferConfig,
    checked: Result<(), JitterError>,
    buffer: JitterBuffer,
)
    requires
        call_ensures(<JitterBufferConfig as Default>::default, (), config),
        call_ensures(JitterBufferConfig::validate, (&config,), checked),
        call_ensures(JitterBuffer::new, (config,), buffer),
    ensures
        checked is Ok,
        buffer@.config == config,
        config.max_latency_ms == 120,
        config.target_latency_ms == 5,
        config.max_packets == 100,
        config.sample_rate == 48_000,
        config.frame_size_ms == 10,
{
}

} // verus!
