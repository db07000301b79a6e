//! What the jitter buffer makes of a burst: packets of one stretch of a stream
//! that arrive at one instant, in any order.
//!
//! A burst is described by its lowest sequence number and a map from the
//! distance behind that number to the packet. Its timeline is the sequence of
//! playout decisions that a buffer makes of it.

use vstd::prelude::*;

use crate::audio::jitter::JitterBufferConfig;
use crate::audio::jitter_laws;
use crate::audio::jitter_model;
use crate::audio::jitter_model::{EventModel, JitterModel, PacketModel};
use crate::audio::rtp;
use crate::audio::timing;
use crate::audio::timing::Arrival;

verus! {

/// Packets with distinct sequence numbers inside one half of the number space,
/// by their distance from the lowest number, which is among them.
pub open spec fn is_burst(burst: Map<int, PacketModel>, lowest: u16) -> bool {
    &&& burst.dom().finite()
    &&& burst.contains_key(0)
    &&& forall|k: int| #[trigger]
        burst.contains_key(k) ==> 0 <= k < 0x8000 && burst[k].sequence_number
            == rtp::wire_sequence(lowest + k)
}

/// An order in which every packet of a burst arrives exactly once.
pub open spec fn is_arrival_order(burst: Map<int, PacketModel>, order: Seq<int>) -> bool {
    &&& order.no_duplicates()
    &&& order.to_set() == burst.dom()
}

/// Distance of the highest sequence number of a burst from the lowest.
pub open spec fn span(burst: Map<int, PacketModel>) -> int {
    choose|k: int| is_span(burst, k)
}

/// Whether this is the distance of the highest number from the lowest.
pub open spec fn is_span(burst: Map<int, PacketModel>, k: int) -> bool {
    &&& burst.contains_key(k)
    &&& forall|other: int| #[trigger] burst.contains_key(other) ==> other <= k
}

/// RTP timestamp of a slot of a burst: that of its packet, or one frame behind
/// the slot before it.
pub open spec fn slot_time(burst: Map<int, PacketModel>, frame_ticks: u32, k: nat) -> u32
    decreases k,
{
    if burst.contains_key(k as int) || k == 0 {
        burst[k as int].timestamp
    } else {
        rtp::timestamp_after(slot_time(burst, frame_ticks, (k - 1) as nat), frame_ticks)
    }
}

/// Decision about a slot of a burst: its packet, or one loss, which the packet
/// right behind it recovers if there is one.
pub open spec fn burst_event(
    burst: Map<int, PacketModel>,
    lowest: u16,
    frame_ticks: u32,
    k: nat,
) -> EventModel {
    let sequence_number = rtp::wire_sequence(lowest + k);
    let timestamp = slot_time(burst, frame_ticks, k);
    if burst.contains_key(k as int) {
        EventModel::Packet(burst[k as int])
    } else if burst.contains_key(k as int + 1) {
        EventModel::RecoveredWithNextPacket {
            sequence_number,
            timestamp,
            next_packet: burst[k as int + 1],
        }
    } else {
        EventModel::Missing { sequence_number, timestamp }
    }
}

/// Deadline of a slot of a burst that arrives at `now`: the startup depth after
/// the arrival for the lowest number, and by the timestamps from there.
pub open spec fn burst_deadline(
    burst: Map<int, PacketModel>,
    config: JitterBufferConfig,
    now: u64,
    k: nat,
) -> int {
    now + config.limits().floor_ns + rtp::nanos_of_ticks(
        rtp::timestamp_advance(burst[0].timestamp, slot_time(burst, config.frame_ticks(), k)),
        config.sample_rate as int,
    )
}

/// Every decision that a buffer makes of a burst, from the lowest number to the
/// highest.
pub open spec fn timeline(
    burst: Map<int, PacketModel>,
    lowest: u16,
    frame_ticks: u32,
) -> Seq<EventModel> {
    Seq::new(
        (span(burst) + 1) as nat,
        |k: int| burst_event(burst, lowest, frame_ticks, k as nat),
    )
}

/// State after packets that arrive at one instant, in order.
pub open spec fn received_all(
    buffer: JitterModel,
    packets: Seq<PacketModel>,
    now: u64,
) -> JitterModel
    decreases packets.len(),
{
    if packets.len() == 0 {
        buffer
    } else {
        received_all(buffer, packets.drop_last(), now).received(packets.last(), now)
    }
}

/// A new buffer that a burst has reached in an order of arrival.
pub open spec fn burst_buffer(
    config: JitterBufferConfig,
    burst: Map<int, PacketModel>,
    order: Seq<int>,
    now: u64,
) -> JitterModel {
    received_all(
        JitterModel::fresh(config.sanitized()),
        order.map_values(|k: int| burst[k]),
        now,
    )
}

/// State after popping at each reading of a clock.
pub open spec fn after_popping(buffer: JitterModel, clock: Seq<u64>) -> JitterModel
    decreases clock.len(),
{
    if clock.len() == 0 {
        buffer
    } else {
        let before = after_popping(buffer, clock.drop_last());
        if before.is_due(clock.last()) {
            before.played()
        } else {
            before
        }
    }
}

/// Decisions that popping at each reading of a clock gives.
pub open spec fn popped(buffer: JitterModel, clock: Seq<u64>) -> Seq<EventModel>
    decreases clock.len(),
{
    if clock.len() == 0 {
        Seq::empty()
    } else {
        let before = after_popping(buffer, clock.drop_last());
        let events = popped(buffer, clock.drop_last());
        if before.is_due(clock.last()) {
            events.push(before.slot_event())
        } else {
            events
        }
    }
}

/// The order in which a burst arrives does not matter: at every reading of any
/// clock, popping gives the same decisions. Once nothing awaits playout these
/// are the burst's timeline: its slots in increasing sequence order, each
/// packet once in its slot, and one loss for each number that is missing
/// between the lowest and the highest.
pub proof fn law_burst_plays_the_same_in_any_order(
    config: JitterBufferConfig,
    burst: Map<int, PacketModel>,
    lowest: u16,
    one: Seq<int>,
    other: Seq<int>,
    now: u64,
    clock: Seq<u64>,
)
    requires
        is_burst(burst, lowest),
        burst.len() <= config.sanitized().max_packets,
        is_arrival_order(burst, one),
        is_arrival_order(burst, other),
    ensures
        ({
            let first = burst_buffer(config, burst, one, now);
            let second = burst_buffer(config, burst, other, now);
            let events = timeline(burst, lowest, config.sanitized().frame_ticks());
            &&& popped(first, clock) == popped(second, clock)
            &&& after_popping(first, clock).next_deadline() == after_popping(
                second,
                clock,
            ).next_deadline()
            &&& after_popping(first, clock).pending() == after_popping(second, clock).pending()
            &&& popped(first, clock).len() <= events.len()
            &&& popped(first, clock) == events.take(popped(first, clock).len() as int)
            &&& !after_popping(first, clock).pending() <==> popped(first, clock) == events
        }),
{
    lemma_popped(config, burst, lowest, one, now, clock);
    lemma_popped(config, burst, lowest, other, now, clock);
    lemma_same_count(config, burst, lowest, one, other, now, clock);
    let first = burst_buffer(config, burst, one, now);
    let count = popped(first, clock).len();
    lemma_span(burst);
    law_burst_is_played_on_its_timeline(config, burst, lowest, one, now, count);
    law_burst_is_played_on_its_timeline(config, burst, lowest, other, now, count);
    let events = timeline(burst, lowest, config.sanitized().frame_ticks());
    assert(events.take(events.len() as int) =~= events);
}

/// In whatever order a burst arrives, the decision about each of its slots and
/// the deadline of that decision are those of the burst's timeline, and nothing
/// awaits playout behind its last slot.
pub proof fn law_burst_is_played_on_its_timeline(
    config: JitterBufferConfig,
    burst: Map<int, PacketModel>,
    lowest: u16,
    order: Seq<int>,
    now: u64,
    count: nat,
)
    requires
        is_burst(burst, lowest),
        burst.len() <= config.sanitized().max_packets,
        is_arrival_order(burst, order),
        count <= span(burst) + 1,
    ensures
        ({
            let buffer = jitter_laws::played_slots(
                burst_buffer(config, burst, order, now),
                count,
            );
            &&& buffer.pending() <==> count <= span(burst)
            &&& count <= span(burst) ==> buffer.slot_event() == burst_event(
                burst,
                lowest,
                config.sanitized().frame_ticks(),
                count,
            )
            &&& count <= span(burst) ==> buffer.next_deadline() == Some(
                burst_deadline(burst, config.sanitized(), now, count),
            )
        }),
{
    let shift = lemma_burst_buffer(config, burst, lowest, order, now);
    lemma_span(burst);
    lemma_burst_played(config, burst, lowest, order, now, shift, count);
    let buffer = jitter_laws::played_slots(burst_buffer(config, burst, order, now), count);
    lemma_pending(burst, buffer, shift, count);
    if count <= span(burst) {
        lemma_slot_event(config.sanitized(), burst, lowest, buffer, shift, count, now);
    }
}

/// The timeline of a burst has a decision for each number from the lowest to the
/// highest, in increasing order: exactly the packets of the burst, each in its
/// slot, and a loss for every other number.
pub proof fn law_timeline_is_in_sequence_order(
    burst: Map<int, PacketModel>,
    lowest: u16,
    frame_ticks: u32,
)
    requires
        is_burst(burst, lowest),
    ensures
        timeline(burst, lowest, frame_ticks).len() == span(burst) + 1,
        timeline(burst, lowest, frame_ticks)[0] == EventModel::Packet(burst[0]),
        forall|k: int|
            0 <= k <= span(burst) ==> {
                let event = #[trigger] timeline(burst, lowest, frame_ticks)[k];
                &&& jitter_laws::event_sequence(event) == rtp::wire_sequence(lowest + k)
                &&& event is Packet <==> burst.contains_key(k)
                &&& event matches EventModel::Packet(packet) ==> packet == burst[k]
            },
        forall|k: int| #[trigger] burst.contains_key(k) ==> 0 <= k <= span(burst),
{
    lemma_span(burst);
}

/// A burst has a highest number.
proof fn lemma_span(burst: Map<int, PacketModel>)
    requires
        burst.dom().finite(),
        burst.contains_key(0),
    ensures
        is_span(burst, span(burst)),
        span(burst) >= 0,
{
    lemma_has_highest(burst.dom());
    let highest = choose|k: int|
        burst.dom().contains(k) && forall|other: int| #[trigger]
            burst.dom().contains(other) ==> other <= k;
    assert(is_span(burst, highest));
}

/// A finite, non-empty set of numbers has a highest one.
proof fn lemma_has_highest(numbers: Set<int>)
    requires
        numbers.finite(),
        numbers.len() > 0,
    ensures
        exists|k: int|
            numbers.contains(k) && forall|other: int| #[trigger]
                numbers.contains(other) ==> other <= k,
    decreases numbers.len(),
{
    let some = numbers.choose();
    let rest = numbers.remove(some);
    if rest.len() == 0 {
        assert forall|other: int| #[trigger] numbers.contains(other) implies other <= some by {
            if other != some {
                assert(rest.contains(other));
            }
        }
        assert(numbers.contains(some));
    } else {
        lemma_has_highest(rest);
        let k = choose|k: int|
            rest.contains(k) && forall|other: int| #[trigger]
                rest.contains(other) ==> other <= k;
        let highest = if some > k {
            some
        } else {
            k
        };
        assert forall|other: int| #[trigger] numbers.contains(other) implies other <= highest by {
            if other != some {
                assert(rest.contains(other));
            }
        }
        assert(numbers.contains(highest));
    }
}

/// The state of a buffer that has received the first packets of a burst: each
/// sits in the slot of its distance from `shift`, and the decoder stands at the
/// lowest of them.
spec fn holds_front(
    config: JitterBufferConfig,
    burst: Map<int, PacketModel>,
    front: Seq<int>,
    now: u64,
    shift: int,
    low: int,
    buffer: JitterModel,
) -> bool {
    &&& buffer.wf()
    &&& buffer.config == config
    &&& buffer.started
    &&& !buffer.playing
    &&& buffer.evicted == Map::<i64, u32>::empty()
    &&& front.contains(low)
    &&& forall|k: int| #[trigger] front.contains(k) ==> low <= k
    &&& buffer.next_seq == shift + low
    &&& buffer.next_timestamp == burst[low].timestamp
    &&& buffer.timing.anchor_timestamp == burst[low].timestamp
    &&& buffer.timing.first matches Some(first) && first.at == now
    &&& buffer.timing.anchor_deadline == now + config.limits().floor_ns
    &&& buffer.timing.target == config.limits().floor()
    &&& buffer.timing.max_transit == 0
    &&& buffer.packets_in == front.len()
    &&& buffer.packets_out == 0
    &&& buffer.packets_dropped == 0
    &&& buffer.packets_late == 0
    &&& buffer.packets.len() == front.len()
    &&& forall|slot: i64| #[trigger]
        buffer.packets.contains_key(slot) <==> front.contains(slot - shift)
    &&& forall|slot: i64| #[trigger]
        buffer.packets.contains_key(slot) ==> buffer.packets[slot] == burst[slot - shift]
}

/// The position of the decoder relative to the first packet that arrived.
spec fn shift_of(lowest: u16, first: int) -> int {
    rtp::wire_sequence(lowest + first) - first
}

/// Receiving the packets of a burst in order puts each into its slot.
proof fn lemma_front(
    config: JitterBufferConfig,
    burst: Map<int, PacketModel>,
    lowest: u16,
    order: Seq<int>,
    now: u64,
    count: nat,
) -> (low: int)
    requires
        config.is_sane(),
        is_burst(burst, lowest),
        burst.len() <= config.max_packets,
        is_arrival_order(burst, order),
        1 <= count <= order.len(),
    ensures
        holds_front(
            config,
            burst,
            order.take(count as int),
            now,
            shift_of(lowest, order[0]),
            low,
            received_all(
                JitterModel::fresh(config),
                order.take(count as int).map_values(|k: int| burst[k]),
                now,
            ),
        ),
    decreases count,
{
    let shift = shift_of(lowest, order[0]);
    let fresh = JitterModel::fresh(config);
    let front = order.take(count as int);
    let packets = front.map_values(|k: int| burst[k]);
    let k = order[count - 1];
    let packet = burst[k];
    assert(order.to_set().contains(k));
    assert(burst.contains_key(k));
    assert(packets.last() == packet);
    let earlier = order.take(count - 1);
    assert(packets.drop_last() =~= earlier.map_values(|k: int| burst[k]));
    let before = received_all(fresh, packets.drop_last(), now);
    order.unique_seq_to_set();
    assert(order.len() == burst.len());
    assert(order.to_set().contains(order[0]));
    assert(burst.contains_key(order[0]));
    assert forall|j: int| #[trigger] front.contains(j) <==> (earlier.contains(j) || j == k) by {
        if earlier.contains(j) {
            let i = choose|i: int| 0 <= i < earlier.len() && earlier[i] == j;
            assert(front[i] == j);
        }
        if j == k {
            assert(front[count - 1] == j);
        }
        if front.contains(j) {
            let i = choose|i: int| 0 <= i < front.len() && front[i] == j;
            if i < count - 1 {
                assert(earlier[i] == j);
            }
        }
    }
    assert(packet.sequence_number == rtp::wire_sequence(lowest + k));
    if count == 1 {
        assert(earlier =~= Seq::empty());
        assert(packets.drop_last() =~= Seq::empty());
        assert(before == fresh);
        rtp::lemma_extended_sequence(packet.sequence_number, packet.sequence_number as int);
        let slot = before.slot_of(packet);
        assert(slot == shift + k);
        timing::lemma_idle_wf(config.limits());
        jitter_model::lemma_received_wf(fresh, packet, now);
        let after = fresh.received(packet, now);
        assert(after.packets =~= Map::empty().insert(slot, packet));
        assert(after.evicted =~= Map::empty());
        timing::lemma_anchored_wf(
            before.timing,
            Arrival { at: now, timestamp: packet.timestamp },
            config.limits(),
        );
        lemma_no_excess(before.anchored(packet, now), packet, now);
        assert(holds_front(config, burst, front, now, shift, k, after));
        k
    } else {
        let low = lemma_front(config, burst, lowest, order, now, (count - 1) as nat);
        assert(burst.contains_key(low)) by {
            let i = choose|i: int| 0 <= i < earlier.len() && earlier[i] == low;
            assert(order[i] == low);
            assert(order.to_set().contains(low));
        }
        assert(!earlier.contains(k)) by {
            if earlier.contains(k) {
                let i = choose|i: int| 0 <= i < earlier.len() && earlier[i] == k;
                assert(order[i] == order[count - 1]);
            }
        }
        rtp::lemma_extended_sequence(packet.sequence_number, before.next_seq as int);
        lemma_slot_in_burst(lowest, order[0], low, k);
        assert(before.has_headroom());
        let slot = before.slot_of(packet);
        assert(slot == shift + k);
        assert(!before.packets.contains_key(slot));
        assert(before.accepts(packet));
        jitter_model::lemma_received_wf(before, packet, now);
        let after = before.received(packet, now);
        let rewound = before.rewound(slot, packet.timestamp);
        lemma_no_excess(rewound, packet, now);
        assert(after.packets =~= before.packets.insert(slot, packet));
        let lower = if k < low {
            k
        } else {
            low
        };
        assert(holds_front(config, burst, front, now, shift, lower, after));
        lower
    }
}

/// A packet that arrives with the first one does not deepen the startup buffer.
proof fn lemma_no_excess(buffer: JitterModel, packet: PacketModel, now: u64)
    requires
        buffer.config.is_sane(),
        buffer.timing.first matches Some(first) && first.at == now,
        buffer.timing.max_transit == 0,
        buffer.timing.target == buffer.config.limits().floor(),
    ensures
        ({
            let after = buffer.timing.observed(
                Arrival { at: now, timestamp: packet.timestamp },
                buffer.config.limits(),
                buffer.playing,
            );
            &&& after.max_transit == 0
            &&& after.target == buffer.timing.target
            &&& after.anchor_deadline == buffer.timing.anchor_deadline
            &&& after.anchor_timestamp == buffer.timing.anchor_timestamp
            &&& after.first == buffer.timing.first
        }),
{
    assert(0 * buffer.config.sample_rate as int == 0);
}

/// Numbers of one burst unfold to slots at their distance.
proof fn lemma_slot_in_burst(lowest: u16, first: int, low: int, k: int)
    requires
        0 <= first < 0x8000,
        0 <= low < 0x8000,
        0 <= k < 0x8000,
    ensures
        rtp::extended_sequence(
            rtp::wire_sequence(lowest + k),
            shift_of(lowest, first) + low,
        ) == shift_of(lowest, first) + k,
{
    let shift = shift_of(lowest, first);
    assert(rtp::wire_sequence(shift + k) == rtp::wire_sequence(lowest + k));
    rtp::law_extension_inverts_wrapping(shift + k, shift + low);
}

/// A buffer that a whole burst has reached holds each packet in its slot, and
/// the decoder stands at the lowest.
proof fn lemma_burst_buffer(
    config: JitterBufferConfig,
    burst: Map<int, PacketModel>,
    lowest: u16,
    order: Seq<int>,
    now: u64,
) -> (shift: int)
    requires
        is_burst(burst, lowest),
        burst.len() <= config.sanitized().max_packets,
        is_arrival_order(burst, order),
    ensures
        -0x8000 <= shift <= 0x1_0000,
        rtp::wire_sequence(shift) == lowest,
        plays_rest(
            config.sanitized(),
            burst,
            now,
            shift,
            0,
            burst_buffer(config, burst, order, now),
        ),
{
    let sane = config.sanitized();
    order.unique_seq_to_set();
    assert(burst.dom().contains(0));
    assert(order.to_set().contains(0));
    assert(order.contains(0));
    let low = lemma_front(sane, burst, lowest, order, now, order.len());
    assert(order.take(order.len() as int) =~= order);
    assert(low == 0) by {
        assert(order.to_set().contains(low));
        assert(burst.contains_key(low));
    }
    let shift = shift_of(lowest, order[0]);
    assert(order.to_set().contains(order[0]));
    assert(burst.contains_key(order[0]));
    let buffer = burst_buffer(config, burst, order, now);
    assert forall|k: int| order.contains(k) <==> #[trigger] burst.contains_key(k) by {
        assert(order.to_set().contains(k) <==> burst.dom().contains(k));
    }
    assert forall|slot: i64| #[trigger]
        buffer.packets.contains_key(slot) <==> burst.contains_key(slot - shift) && slot - shift
            >= 0 by {
        assert(order.contains(slot - shift) <==> burst.contains_key(slot - shift));
    }
    shift
}

/// The state of a buffer that still has to play a burst from a slot on.
spec fn plays_rest(
    config: JitterBufferConfig,
    burst: Map<int, PacketModel>,
    now: u64,
    shift: int,
    k: nat,
    buffer: JitterModel,
) -> bool {
    &&& buffer.config == config
    &&& buffer.packets.dom().finite()
    &&& buffer.evicted == Map::<i64, u32>::empty()
    &&& buffer.next_seq == shift + k
    &&& buffer.timing.anchor_timestamp == burst[0].timestamp
    &&& buffer.timing.anchor_deadline == now + config.limits().floor_ns
    &&& buffer.next_timestamp == if k == 0 {
        burst[0].timestamp
    } else {
        rtp::timestamp_after(
            slot_time(burst, config.frame_ticks(), (k - 1) as nat),
            config.frame_ticks(),
        )
    }
    &&& forall|slot: i64| #[trigger]
        buffer.packets.contains_key(slot) <==> burst.contains_key(slot - shift) && slot - shift
            >= k
    &&& forall|slot: i64| #[trigger]
        buffer.packets.contains_key(slot) ==> buffer.packets[slot] == burst[slot - shift]
}

/// Playing slots leaves the rest of the burst.
proof fn lemma_burst_played(
    config: JitterBufferConfig,
    burst: Map<int, PacketModel>,
    lowest: u16,
    order: Seq<int>,
    now: u64,
    shift: int,
    count: nat,
)
    requires
        is_burst(burst, lowest),
        -0x8000 <= shift <= 0x1_0000,
        plays_rest(
            config.sanitized(),
            burst,
            now,
            shift,
            0,
            burst_buffer(config, burst, order, now),
        ),
        count <= 0x8000,
    ensures
        plays_rest(
            config.sanitized(),
            burst,
            now,
            shift,
            count,
            jitter_laws::played_slots(burst_buffer(config, burst, order, now), count),
        ),
    decreases count,
{
    let first = burst_buffer(config, burst, order, now);
    if count > 0 {
        let k = (count - 1) as nat;
        lemma_burst_played(config, burst, lowest, order, now, shift, k);
        let before = jitter_laws::played_slots(first, k);
        let after = before.played();
        lemma_slot_timestamp(config.sanitized(), burst, before, shift, k, now);
        assert forall|slot: i64| #[trigger]
            after.packets.contains_key(slot) <==> burst.contains_key(slot - shift) && slot - shift
                >= count by {
            assert(after.packets.contains_key(slot) <==> before.packets.contains_key(slot) && slot
                != before.next_seq);
        }
        assert(after.evicted =~= Map::empty());
    } else {
        assert(jitter_laws::played_slots(first, 0) == first);
    }
}

/// The timestamp of the next slot is that of the burst's timeline.
proof fn lemma_slot_timestamp(
    config: JitterBufferConfig,
    burst: Map<int, PacketModel>,
    buffer: JitterModel,
    shift: int,
    k: nat,
    now: u64,
)
    requires
        burst.contains_key(0),
        -0x8000 <= shift <= 0x1_0000,
        k <= 0x8000,
        plays_rest(config, burst, now, shift, k, buffer),
    ensures
        buffer.slot_timestamp() == slot_time(burst, config.frame_ticks(), k),
        buffer.packets.contains_key(buffer.next_seq) <==> burst.contains_key(k as int),
        burst.contains_key(k as int) ==> buffer.packets[buffer.next_seq] == burst[k as int],
{
    assert(buffer.next_seq - shift == k);
}

/// Slots await playout exactly up to the last number of a burst.
proof fn lemma_pending(burst: Map<int, PacketModel>, buffer: JitterModel, shift: int, k: nat)
    requires
        is_span(burst, span(burst)),
        0 <= span(burst) < 0x8000,
        -0x8000 <= shift <= 0x1_0000,
        buffer.packets.dom().finite(),
        buffer.evicted == Map::<i64, u32>::empty(),
        forall|slot: i64| #[trigger]
            buffer.packets.contains_key(slot) <==> burst.contains_key(slot - shift) && slot
                - shift >= k,
    ensures
        buffer.pending() <==> k <= span(burst),
{
    if k <= span(burst) {
        let slot = (shift + span(burst)) as i64;
        assert(buffer.packets.contains_key(slot));
        assert(buffer.packets.dom().contains(slot));
        assert(buffer.packets.len() > 0);
    } else {
        assert forall|slot: i64| !buffer.packets.contains_key(slot) by {
            assert(burst.contains_key(slot - shift) ==> slot - shift <= span(burst));
        }
        assert(buffer.packets =~= Map::empty());
    }
}

/// The decision and the deadline of the next slot are those of the timeline.
proof fn lemma_slot_event(
    config: JitterBufferConfig,
    burst: Map<int, PacketModel>,
    lowest: u16,
    buffer: JitterModel,
    shift: int,
    k: nat,
    now: u64,
)
    requires
        burst.contains_key(0),
        -0x8000 <= shift <= 0x1_0000,
        rtp::wire_sequence(shift) == lowest,
        k < 0x8000,
        plays_rest(config, burst, now, shift, k, buffer),
        buffer.pending(),
    ensures
        buffer.slot_event() == burst_event(burst, lowest, config.frame_ticks(), k),
        buffer.next_deadline() == Some(burst_deadline(burst, config, now, k)),
{
    lemma_slot_timestamp(config, burst, buffer, shift, k, now);
    let following = (buffer.next_seq + 1) as i64;
    assert(following - shift == k + 1);
    assert(buffer.packets.contains_key(following) <==> burst.contains_key(k as int + 1));
    assert(rtp::wire_sequence(shift + k) == rtp::wire_sequence(lowest + k));
}

/// Popping a burst gives a front of its timeline and plays as many slots.
proof fn lemma_popped(
    config: JitterBufferConfig,
    burst: Map<int, PacketModel>,
    lowest: u16,
    order: Seq<int>,
    now: u64,
    clock: Seq<u64>,
)
    requires
        is_burst(burst, lowest),
        burst.len() <= config.sanitized().max_packets,
        is_arrival_order(burst, order),
    ensures
        ({
            let buffer = burst_buffer(config, burst, order, now);
            let events = timeline(burst, lowest, config.sanitized().frame_ticks());
            let count = popped(buffer, clock).len();
            &&& count <= span(burst) + 1
            &&& popped(buffer, clock) == events.take(count as int)
            &&& after_popping(buffer, clock) == jitter_laws::played_slots(buffer, count)
        }),
    decreases clock.len(),
{
    let buffer = burst_buffer(config, burst, order, now);
    let events = timeline(burst, lowest, config.sanitized().frame_ticks());
    lemma_span(burst);
    if clock.len() == 0 {
        assert(popped(buffer, clock) =~= events.take(0));
    } else {
        let earlier = clock.drop_last();
        lemma_popped(config, burst, lowest, order, now, earlier);
        let count = popped(buffer, earlier).len();
        law_burst_is_played_on_its_timeline(config, burst, lowest, order, now, count);
        let before = after_popping(buffer, earlier);
        if before.is_due(clock.last()) {
            assert(before.pending());
            assert(popped(buffer, clock) =~= events.take(count as int + 1));
        }
    }
}

/// Two orders of arrival have as many slots played at every reading.
proof fn lemma_same_count(
    config: JitterBufferConfig,
    burst: Map<int, PacketModel>,
    lowest: u16,
    one: Seq<int>,
    other: Seq<int>,
    now: u64,
    clock: Seq<u64>,
)
    requires
        is_burst(burst, lowest),
        burst.len() <= config.sanitized().max_packets,
        is_arrival_order(burst, one),
        is_arrival_order(burst, other),
    ensures
        popped(burst_buffer(config, burst, one, now), clock).len() == popped(
            burst_buffer(config, burst, other, now),
            clock,
        ).len(),
    decreases clock.len(),
{
    if clock.len() > 0 {
        let earlier = clock.drop_last();
        lemma_same_count(config, burst, lowest, one, other, now, earlier);
        lemma_popped(config, burst, lowest, one, now, earlier);
        lemma_popped(config, burst, lowest, other, now, earlier);
        let count = popped(burst_buffer(config, burst, one, now), earlier).len();
        law_burst_is_played_on_its_timeline(config, burst, lowest, one, now, count);
        law_burst_is_played_on_its_timeline(config, burst, lowest, other, now, count);
    }
}

} // verus!
