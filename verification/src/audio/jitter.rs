//! Low-latency adaptive jitter buffer for voice streaming.
//!
//! The jitter buffer sits between the network and the audio decoder. It
//! reorders out-of-order RTP audio packets, absorbs network jitter, and hands
//! packets to the decoder strictly in sequence order.
//!
//! Design goals (low-latency-first):
//! * Keep the buffer shallow: startup delay is capped by
//!   [`JitterBufferConfig::max_latency_ms`].
//! * Adapt quickly: startup delay grows only enough to cover the observed
//!   positive transit-time spread.
//! * Use RTP timestamps to map every frame onto a stable playout deadline
//!   after one adaptive startup delay rooted at
//!   [`JitterBufferConfig::target_latency_ms`].
//! * Prefer concealment over growing delay: a missing packet produces one
//!   [`PlayoutEvent`] at its scheduled deadline and playback keeps advancing.
//!
//! The buffer has no clock of its own: every operation that depends on time
//! takes the current instant in nanoseconds.

use std::collections::BTreeMap;

use vstd::prelude::*;

use crate::audio::jitter_model;
use crate::audio::jitter_model::{EventModel, JitterModel, PacketModel};
use crate::audio::rtp::{extend_seq, wire_sequence_number, NANOS_PER_MILLI};
use crate::audio::timing;
use crate::audio::timing::{Arrival, Timing, TimingLimits};

verus! {

/// Errors produced by jitter buffer configuration validation.
#[derive(Debug, Clone, Copy, PartialEq, Eq)]
pub enum JitterError {
    /// Target latency must never exceed the hard maximum latency.
    InvalidLatency {
        /// Requested target latency in milliseconds.
        target_latency_ms: u32,
        /// Configured hard maximum latency in milliseconds.
        max_latency_ms: u32,
    },
    /// RTP clock rate must be positive.
    InvalidSampleRate,
    /// Frame duration must be positive.
    InvalidFrameSize,
    /// Buffer capacity must hold at least one packet.
    InvalidMaxPackets,
}

/// Tunable parameters for the jitter buffer.
///
/// Defaults are tuned for interactive voice conversations, where a user
/// perceives anything above about 100 ms of added buffering as a laggy turn.
#[derive(Debug, Clone, Copy, PartialEq, Eq)]
pub struct JitterBufferConfig {
    /// Hard ceiling on the adaptive startup delay.
    ///
    /// This is intentionally not a packet-residence limit. A packet that
    /// arrives unusually early may wait longer than this while still having a
    /// correct, low-latency RTP deadline.
    pub max_latency_ms: u32,
    /// Initial playout depth. The first RTP timestamp is mapped to its arrival
    /// time plus this delay; later frame deadlines follow the RTP timeline.
    pub target_latency_ms: u32,
    /// Hard ceiling on the number of buffered packets (safety valve against
    /// memory blowups during long stalls).
    pub max_packets: usize,
    /// RTP clock rate in Hz (Opus uses 48000).
    pub sample_rate: u32,
    /// Duration of one encoded frame in milliseconds.
    pub frame_size_ms: u32,
}

impl Default for JitterBufferConfig {
    fn default() -> (config: Self)
        ensures
            config == (JitterBufferConfig {
                max_latency_ms: 120,
                target_latency_ms: 5,
                max_packets: 100,
                sample_rate: 48_000,
                frame_size_ms: 10,
            }),
    {
        JitterBufferConfig {
            max_latency_ms: 120,
            target_latency_ms: 5,
            max_packets: 100,
            sample_rate: 48_000,
            frame_size_ms: 10,
        }
    }
}

impl JitterBufferConfig {
    /// The configuration can be used as it is.
    pub open spec fn is_sane(self) -> bool {
        &&& self.target_latency_ms <= self.max_latency_ms
        &&& self.sample_rate > 0
        &&& self.frame_size_ms > 0
        &&& self.max_packets > 0
    }

    /// The configuration with every unusable value replaced by the nearest
    /// usable one.
    pub open spec fn sanitized(self) -> JitterBufferConfig {
        JitterBufferConfig {
            max_latency_ms: self.max_latency_ms,
            target_latency_ms: if self.target_latency_ms <= self.max_latency_ms {
                self.target_latency_ms
            } else {
                self.max_latency_ms
            },
            max_packets: if self.max_packets > 0 {
                self.max_packets
            } else {
                1
            },
            sample_rate: if self.sample_rate > 0 {
                self.sample_rate
            } else {
                1
            },
            frame_size_ms: if self.frame_size_ms > 0 {
                self.frame_size_ms
            } else {
                1
            },
        }
    }

    /// RTP timestamp ticks in one audio frame, modulo 2^32.
    pub open spec fn frame_ticks(self) -> u32 {
        (((self.sample_rate * self.frame_size_ms) / 1000) % 0x1_0000_0000) as u32
    }

    /// Startup depth limits and clock rate.
    pub open spec fn limits(self) -> TimingLimits {
        TimingLimits {
            floor_ns: (self.target_latency_ms * NANOS_PER_MILLI) as u64,
            ceiling_ns: (self.max_latency_ms * NANOS_PER_MILLI) as u64,
            rate: self.sample_rate,
        }
    }

    /// Strictly validate the configuration.
    ///
    /// [`JitterBuffer::new`] silently sanitizes invalid values instead of
    /// failing; callers that prefer explicit errors can run this first.
    pub fn validate(&self) -> (result: Result<(), JitterError>)
        ensures
            result == (if self.target_latency_ms > self.max_latency_ms {
                Err::<(), JitterError>(
                    JitterError::InvalidLatency {
                        target_latency_ms: self.target_latency_ms,
                        max_latency_ms: self.max_latency_ms,
                    },
                )
            } else if self.sample_rate == 0 {
                Err(JitterError::InvalidSampleRate)
            } else if self.frame_size_ms == 0 {
                Err(JitterError::InvalidFrameSize)
            } else if self.max_packets == 0 {
                Err(JitterError::InvalidMaxPackets)
            } else {
                Ok(())
            }),
            result is Ok <==> self.is_sane(),
    {
        if self.target_latency_ms > self.max_latency_ms {
            return Err(
                JitterError::InvalidLatency {
                    target_latency_ms: self.target_latency_ms,
                    max_latency_ms: self.max_latency_ms,
                },
            );
        }
        if self.sample_rate == 0 {
            return Err(JitterError::InvalidSampleRate);
        }
        if self.frame_size_ms == 0 {
            return Err(JitterError::InvalidFrameSize);
        }
        if self.max_packets == 0 {
            return Err(JitterError::InvalidMaxPackets);
        }
        Ok(())
    }

    /// Replace every unusable value by the nearest usable one.
    fn sanitize(&self) -> (config: JitterBufferConfig)
        ensures
            config == self.sanitized(),
            config.is_sane(),
    {
        JitterBufferConfig {
            max_latency_ms: self.max_latency_ms,
            target_latency_ms: if self.target_latency_ms <= self.max_latency_ms {
                self.target_latency_ms
            } else {
                self.max_latency_ms
            },
            max_packets: if self.max_packets > 0 {
                self.max_packets
            } else {
                1
            },
            sample_rate: if self.sample_rate > 0 {
                self.sample_rate
            } else {
                1
            },
            frame_size_ms: if self.frame_size_ms > 0 {
                self.frame_size_ms
            } else {
                1
            },
        }
    }

    /// Startup depth limits and clock rate.
    fn timing_limits(&self) -> (limits: TimingLimits)
        requires
            self.is_sane(),
        ensures
            limits == self.limits(),
            limits.wf(),
    {
        TimingLimits {
            floor_ns: self.target_latency_ms as u64 * NANOS_PER_MILLI,
            ceiling_ns: self.max_latency_ms as u64 * NANOS_PER_MILLI,
            rate: self.sample_rate,
        }
    }

    /// RTP timestamp ticks in one configured audio frame.
    fn ticks_per_frame(&self) -> (ticks: u32)
        ensures
            ticks == self.frame_ticks(),
    {
        assert(0 <= self.sample_rate as int * self.frame_size_ms as int <= 0xffff_ffff
            * 0xffff_ffff) by (nonlinear_arith)
            requires
                0 <= self.sample_rate <= 0xffff_ffff,
                0 <= self.frame_size_ms <= 0xffff_ffff,
        ;
        let ticks: u64 = (self.sample_rate as u64 * self.frame_size_ms as u64) / 1000;
        assert((ticks as u32) as int == ticks as int % 0x1_0000_0000) by (bit_vector);
        #[verifier::truncate] (ticks as u32)
    }
}

/// One encoded audio frame straight off the network (RTP payload).
#[derive(Debug, PartialEq, Eq)]
pub struct AudioPacket {
    /// RTP sequence number. Wraps around at `u16::MAX`; the buffer extends it
    /// internally to a 64-bit counter so ordering survives the wrap.
    pub sequence_number: u16,
    /// RTP timestamp in `sample_rate` ticks. Wraps at `u32::MAX`.
    pub timestamp: u32,
    /// Encoded Opus payload bytes.
    pub payload: Vec<u8>,
}

impl View for AudioPacket {
    type V = PacketModel;

    open spec fn view(&self) -> PacketModel {
        PacketModel {
            sequence_number: self.sequence_number,
            timestamp: self.timestamp,
            payload: self.payload@,
        }
    }
}

impl Clone for AudioPacket {
    fn clone(&self) -> (copy: Self)
        ensures
            copy@ == self@,
    {
        AudioPacket {
            sequence_number: self.sequence_number,
            timestamp: self.timestamp,
            payload: self.payload.clone(),
        }
    }
}

/// One frame-slot decision made by the jitter buffer at its RTP deadline.
///
/// The next packet is cloned for recovery but remains buffered for normal
/// decoding at its own deadline.
#[derive(Debug, PartialEq, Eq)]
pub enum PlayoutEvent {
    /// The expected packet arrived before its playout deadline.
    Packet(AudioPacket),
    /// The expected packet was absent and no immediately following packet can
    /// provide in-band recovery data. The decoder should conceal the loss.
    Missing {
        /// Sequence number of the lost packet.
        sequence_number: u16,
        /// Predicted RTP timestamp for the lost frame.
        timestamp: u32,
    },
    /// The expected packet was absent, but the immediately following packet is
    /// available and can be used to reconstruct it with in-band recovery data.
    RecoveredWithNextPacket {
        /// Sequence number of the lost packet being reconstructed.
        sequence_number: u16,
        /// Predicted RTP timestamp for the lost frame.
        timestamp: u32,
        /// Following packet containing the redundant data. It remains in the
        /// jitter buffer for normal decoding at its own deadline.
        next_packet: AudioPacket,
    },
}

impl View for PlayoutEvent {
    type V = EventModel;

    open spec fn view(&self) -> EventModel {
        match *self {
            PlayoutEvent::Packet(packet) => EventModel::Packet(packet@),
            PlayoutEvent::Missing { sequence_number, timestamp } => EventModel::Missing {
                sequence_number,
                timestamp,
            },
            PlayoutEvent::RecoveredWithNextPacket { sequence_number, timestamp, next_packet } =>
                EventModel::RecoveredWithNextPacket {
                sequence_number,
                timestamp,
                next_packet: next_packet@,
            },
        }
    }
}

impl Clone for PlayoutEvent {
    fn clone(&self) -> (copy: Self)
        ensures
            copy@ == self@,
    {
        match self {
            PlayoutEvent::Packet(packet) => PlayoutEvent::Packet(packet.clone()),
            PlayoutEvent::Missing { sequence_number, timestamp } => PlayoutEvent::Missing {
                sequence_number: *sequence_number,
                timestamp: *timestamp,
            },
            PlayoutEvent::RecoveredWithNextPacket { sequence_number, timestamp, next_packet } =>
                PlayoutEvent::RecoveredWithNextPacket {
                sequence_number: *sequence_number,
                timestamp: *timestamp,
                next_packet: next_packet.clone(),
            },
        }
    }
}

/// Running counters and the adaptive jitter estimate.
#[derive(Debug, Clone, Copy, Default, PartialEq, Eq)]
pub struct JitterStats {
    /// Packets accepted into the buffer (duplicates and late arrivals excluded).
    pub packets_in: u64,
    /// Packets handed to the decoder in order.
    pub packets_out: u64,
    /// Packets discarded as duplicates, lost gaps (skipped after deadline), or
    /// capacity evictions.
    pub packets_dropped: u64,
    /// Packets that arrived after their playout slot had already been skipped.
    pub packets_late: u64,
    /// Current RFC 3550 inter-arrival jitter estimate, in RTP ticks times
    /// [`JITTER_SCALE`](crate::audio::timing::JITTER_SCALE).
    pub current_jitter: u128,
    /// RTP clock rate in Hz, which says how long a tick is.
    pub sample_rate: u32,
    /// Current adaptive startup target, in nanoseconds times the clock rate.
    pub current_target_latency: u128,
}

/// A packet together with its position in the stream.
#[derive(Debug)]
struct BufferedPacket {
    extended_sequence_number: i64,
    packet: AudioPacket,
}

/// Low-latency, adaptive jitter buffer.
///
/// Buffered packets are kept in a small sorted [`Vec`] by *extended*
/// (wrap-safe) sequence number. Raw `u16` sequence numbers cannot be compared
/// directly across the wrap, so each incoming number is unfolded against the
/// current sequence reference into an `i64`, which restores total order across
/// stream lifetimes.
pub struct JitterBuffer {
    /// Sanitized configuration.
    config: JitterBufferConfig,
    /// Buffered packets sorted by extended sequence number.
    packets: Vec<BufferedPacket>,
    /// Evicted packet slots retained in sequence order so each one still emits
    /// exactly one `Missing` event at its RTP deadline.
    evicted_slots: BTreeMap<i64, u32>,
    /// Next extended sequence number the decoder expects.
    next_seq: i64,
    /// True once the first packet anchored `next_seq` to the stream.
    started: bool,
    /// RTP timestamp expected for `next_seq` when that packet is absent.
    next_timestamp: u32,
    /// True after the first frame slot has been emitted. Before that point an
    /// earlier out-of-order packet may still move the stream anchor backwards.
    playout_started: bool,
    /// Deadlines, startup depth and jitter estimate.
    timing: Timing,
    packets_in: u64,
    packets_out: u64,
    packets_dropped: u64,
    packets_late: u64,
}

/// The buffered packets are strictly sorted by extended sequence number.
spec fn is_sorted(packets: Seq<BufferedPacket>) -> bool {
    forall|i: int, j: int|
        0 <= i < j < packets.len() ==> (#[trigger] packets[i]).extended_sequence_number < (
        #[trigger] packets[j]).extended_sequence_number
}

/// The packet at position `i` belongs to `slot`.
spec fn sits_at(packets: Seq<BufferedPacket>, slot: i64, i: int) -> bool {
    0 <= i < packets.len() && packets[i].extended_sequence_number == slot
}

/// Position of the packet that belongs to `slot`.
spec fn position_of(packets: Seq<BufferedPacket>, slot: i64) -> int {
    choose|i: int| sits_at(packets, slot, i)
}

/// The buffered packets by slot.
spec fn by_slot(packets: Seq<BufferedPacket>) -> Map<i64, PacketModel> {
    Map::new(
        |slot: i64| exists|i: int| sits_at(packets, slot, i),
        |slot: i64| packets[position_of(packets, slot)].packet@,
    )
}

/// A sorted sequence and its map by slot hold the same packets.
proof fn lemma_by_slot(packets: Seq<BufferedPacket>)
    requires
        is_sorted(packets),
    ensures
        by_slot(packets).dom().finite(),
        by_slot(packets).len() == packets.len(),
        forall|i: int|
            0 <= i < packets.len() ==> by_slot(packets).contains_key(
                (#[trigger] packets[i]).extended_sequence_number,
            ) && by_slot(packets)[packets[i].extended_sequence_number] == packets[i].packet@,
        forall|slot: i64| #[trigger]
            by_slot(packets).contains_key(slot) ==> sits_at(
                packets,
                slot,
                position_of(packets, slot),
            ),
{
    let slots = packets.map_values(|p: BufferedPacket| p.extended_sequence_number);
    assert(slots.no_duplicates());
    slots.unique_seq_to_set();
    assert forall|i: int| 0 <= i < packets.len() implies by_slot(packets).contains_key(
        (#[trigger] packets[i]).extended_sequence_number,
    ) && by_slot(packets)[packets[i].extended_sequence_number] == packets[i].packet@ by {
        assert(sits_at(packets, packets[i].extended_sequence_number, i));
        let j = position_of(packets, packets[i].extended_sequence_number);
        assert(sits_at(packets, packets[i].extended_sequence_number, j));
        assert(i == j);
    }
    assert(by_slot(packets).dom() =~= slots.to_set()) by {
        assert forall|slot: i64| by_slot(packets).contains_key(slot) == slots.to_set().contains(
            slot,
        ) by {
            if by_slot(packets).contains_key(slot) {
                let i = position_of(packets, slot);
                assert(sits_at(packets, slot, i));
                assert(slots[i] == slot);
            }
            if slots.to_set().contains(slot) {
                let i = choose|i: int| 0 <= i < slots.len() && slots[i] == slot;
                assert(sits_at(packets, slot, i));
            }
        }
    }
}

/// Inserting a packet in order adds its slot to the map.
proof fn lemma_insert_in_order(packets: Seq<BufferedPacket>, i: int, added: BufferedPacket)
    requires
        is_sorted(packets),
        0 <= i <= packets.len(),
        forall|j: int|
            0 <= j < i ==> (#[trigger] packets[j]).extended_sequence_number
                < added.extended_sequence_number,
        forall|j: int|
            i <= j < packets.len() ==> (#[trigger] packets[j]).extended_sequence_number
                > added.extended_sequence_number,
    ensures
        is_sorted(packets.insert(i, added)),
        by_slot(packets.insert(i, added)) == by_slot(packets).insert(
            added.extended_sequence_number,
            added.packet@,
        ),
{
    let after = packets.insert(i, added);
    assert(is_sorted(after)) by {
        assert forall|a: int, b: int| 0 <= a < b < after.len() implies (
        #[trigger] after[a]).extended_sequence_number < (
        #[trigger] after[b]).extended_sequence_number by {
            let old_a = if a < i {
                a
            } else {
                a - 1
            };
            let old_b = if b < i {
                b
            } else {
                b - 1
            };
            if a != i {
                assert(after[a] == packets[old_a]);
            }
            if b != i {
                assert(after[b] == packets[old_b]);
            }
        }
    }
    lemma_by_slot(packets);
    lemma_by_slot(after);
    let expected = by_slot(packets).insert(added.extended_sequence_number, added.packet@);
    assert forall|slot: i64| by_slot(after).contains_key(slot) == expected.contains_key(slot) by {
        if by_slot(after).contains_key(slot) {
            let p = position_of(after, slot);
            if p < i {
                assert(after[p] == packets[p]);
            } else if p > i {
                assert(after[p] == packets[p - 1]);
            }
        }
        if expected.contains_key(slot) {
            if slot == added.extended_sequence_number {
                assert(after[i] == added);
            } else {
                let p = position_of(packets, slot);
                if p < i {
                    assert(after[p] == packets[p]);
                } else {
                    assert(after[p + 1] == packets[p]);
                }
            }
        }
    }
    assert forall|slot: i64| by_slot(after).contains_key(slot) implies by_slot(after)[slot]
        == expected[slot] by {
        let p = position_of(after, slot);
        assert(by_slot(after)[slot] == after[p].packet@);
        if p < i {
            assert(after[p] == packets[p]);
        } else if p > i {
            assert(after[p] == packets[p - 1]);
        }
    }
    assert(by_slot(after) =~= expected);
}

/// Removing a packet removes its slot from the map.
proof fn lemma_remove_packet(packets: Seq<BufferedPacket>, i: int)
    requires
        is_sorted(packets),
        0 <= i < packets.len(),
    ensures
        is_sorted(packets.remove(i)),
        by_slot(packets.remove(i)) == by_slot(packets).remove(packets[i].extended_sequence_number),
{
    let after = packets.remove(i);
    let removed = packets[i];
    lemma_by_slot(packets);
    lemma_by_slot(after);
    let expected = by_slot(packets).remove(removed.extended_sequence_number);
    assert forall|slot: i64| by_slot(after).contains_key(slot) == expected.contains_key(slot) by {
        if by_slot(after).contains_key(slot) {
            let p = position_of(after, slot);
            if p < i {
                assert(after[p] == packets[p]);
            } else {
                assert(after[p] == packets[p + 1]);
            }
        }
        if expected.contains_key(slot) {
            let p = position_of(packets, slot);
            assert(p != i);
            if p < i {
                assert(after[p] == packets[p]);
            } else {
                assert(after[p - 1] == packets[p]);
            }
        }
    }
    assert forall|slot: i64| by_slot(after).contains_key(slot) implies by_slot(after)[slot]
        == expected[slot] by {
        let p = position_of(after, slot);
        if p < i {
            assert(after[p] == packets[p]);
        } else {
            assert(after[p] == packets[p + 1]);
        }
    }
    assert(by_slot(after) =~= expected);
}

impl View for JitterBuffer {
    type V = JitterModel;

    closed spec fn view(&self) -> JitterModel {
        JitterModel {
            config: self.config,
            packets: by_slot(self.packets@),
            evicted: self.evicted_slots@,
            started: self.started,
            playing: self.playout_started,
            next_seq: self.next_seq,
            next_timestamp: self.next_timestamp,
            timing: self.timing,
            packets_in: self.packets_in,
            packets_out: self.packets_out,
            packets_dropped: self.packets_dropped,
            packets_late: self.packets_late,
        }
    }
}

impl JitterBuffer {
    /// The packets are sorted and the modelled state is a reachable one.
    pub closed spec fn wf(&self) -> bool {
        &&& is_sorted(self.packets@)
        &&& self@.wf()
    }

    /// A buffer in working order shows a reachable state.
    pub proof fn lemma_wf(&self)
        requires
            self.wf(),
        ensures
            self@.wf(),
    {
    }

    /// Create a jitter buffer. Invalid config values are sanitized (see
    /// [`JitterBufferConfig::validate`] for strict checking).
    pub fn new(config: JitterBufferConfig) -> (buffer: Self)
        ensures
            buffer.wf(),
            buffer@ == JitterModel::fresh(config.sanitized()),
    {
        let config = config.sanitize();
        let limits = config.timing_limits();
        let buffer = JitterBuffer {
            config,
            packets: Vec::new(),
            evicted_slots: BTreeMap::new(),
            next_seq: 0,
            started: false,
            next_timestamp: 0,
            playout_started: false,
            timing: Timing::new(&limits),
            packets_in: 0,
            packets_out: 0,
            packets_dropped: 0,
            packets_late: 0,
        };
        proof {
            lemma_by_slot(buffer.packets@);
            assert(by_slot(buffer.packets@) =~= Map::empty());
            assert(buffer@ =~= JitterModel::fresh(config));
        }
        buffer
    }

    /// Whether the counters and the decoder position are far enough from the
    /// ends of their machine types for one more packet or slot.
    pub fn has_headroom(&self) -> (result: bool)
        ensures
            result == self@.has_headroom(),
    {
        self.packets_in < u64::MAX && self.packets_out < u64::MAX && self.packets_dropped
            < u64::MAX && self.packets_late < u64::MAX && self.next_seq >= i64::MIN + 0x8000
            && self.next_seq <= i64::MAX - 0x8000
    }

    /// Position of a buffered packet, or where it would have to be inserted.
    fn packet_index(&self, sequence_number: i64) -> (result: Result<usize, usize>)
        requires
            is_sorted(self.packets@),
        ensures
            match result {
                Ok(i) => sits_at(self.packets@, sequence_number, i as int),
                Err(i) => {
                    &&& i <= self.packets.len()
                    &&& forall|j: int|
                        0 <= j < i ==> (#[trigger] self.packets[j]).extended_sequence_number
                            < sequence_number
                    &&& forall|j: int|
                        i <= j < self.packets.len() ==> (
                        #[trigger] self.packets[j]).extended_sequence_number > sequence_number
                },
            },
    {
        let mut low: usize = 0;
        let mut high: usize = self.packets.len();
        while low < high
            invariant
                is_sorted(self.packets@),
                low <= high <= self.packets.len(),
                forall|j: int|
                    0 <= j < low ==> (#[trigger] self.packets[j]).extended_sequence_number
                        < sequence_number,
                forall|j: int|
                    high <= j < self.packets.len() ==> (
                    #[trigger] self.packets[j]).extended_sequence_number > sequence_number,
            decreases high - low,
        {
            let middle: usize = low + (high - low) / 2;
            let found: i64 = self.packets[middle].extended_sequence_number;
            if found == sequence_number {
                return Ok(middle);
            }
            if found < sequence_number {
                low = middle + 1;
            } else {
                high = middle;
            }
        }
        Err(low)
    }

    /// Insert a packet, keeping the buffer ordered by sequence number.
    ///
    /// * Duplicates are ignored.
    /// * Packets arriving after their playout slot was skipped are counted as
    ///   late and dropped (low-latency policy: never rewind the decoder).
    /// * Inserting may evict the packet farthest in the future to respect the
    ///   capacity limit.
    ///
    /// Returns whether the packet is buffered afterwards.
    pub fn push(&mut self, packet: AudioPacket, now: u64) -> (accepted: bool)
        requires
            old(self).wf(),
            old(self)@.has_headroom(),
        ensures
            final(self).wf(),
            final(self)@ == old(self)@.received(packet@, now),
            accepted == (old(self)@.accepts(packet@) && final(self)@.packets.contains_key(
                old(self)@.slot_of(packet@),
            )),
    {
        let arrival = Arrival { at: now, timestamp: packet.timestamp };
        let limits = self.config.timing_limits();
        let ghost before = self@;
        let ghost model = packet@;
        proof {
            lemma_by_slot(self.packets@);
        }
        if !self.started {
            proof {
                timing::lemma_anchored_wf(self.timing, arrival, limits);
            }
            // Anchor the extended sequence space on the first packet seen.
            self.next_seq = packet.sequence_number as i64;
            self.next_timestamp = packet.timestamp;
            self.timing.anchor(arrival, &limits);
            self.started = true;
        }
        assert(self@ =~= before.anchored(model, now));

        // Unfold the raw number into the extended sequence space so comparisons
        // are correct even across the wraparound.
        let ext: i64 = extend_seq(packet.sequence_number, self.next_seq);
        assert(ext == before.slot_of(model));
        if ext < self.next_seq && self.playout_started {
            // Its playout slot is already gone: playing it now would add delay
            // or force a decoder rewind, so drop it.
            self.packets_late = self.packets_late + 1;
            proof {
                assert(self@ =~= before.received(model, now));
                jitter_model::lemma_received_wf(before, model, now);
            }
            return false;
        }
        if ext < self.next_seq {
            // Playout has not started, so this is an earlier out-of-order
            // packet rather than a late one. Keep the startup deadline but
            // re-anchor its timestamp and sequence.
            self.next_seq = ext;
            self.next_timestamp = packet.timestamp;
            self.timing.re_anchor(packet.timestamp);
        }
        assert(self@ =~= before.anchored(model, now).rewound(ext, model.timestamp));

        let index: usize = match self.packet_index(ext) {
            Ok(_) => {
                self.packets_dropped = self.packets_dropped + 1;
                proof {
                    assert(self@ =~= before.received(model, now));
                    jitter_model::lemma_received_wf(before, model, now);
                }
                return false;
            },
            Err(index) => index,
        };
        if self.evicted_slots.contains_key(&ext) {
            self.packets_dropped = self.packets_dropped + 1;
            proof {
                assert(self@ =~= before.received(model, now));
                jitter_model::lemma_received_wf(before, model, now);
            }
            return false;
        }
        self.timing.observe(arrival, &limits, self.playout_started);
        let added = BufferedPacket { extended_sequence_number: ext, packet };
        proof {
            lemma_insert_in_order(self.packets@, index as int, added);
        }
        self.packets.insert(index, added);
        self.packets_in = self.packets_in + 1;
        proof {
            lemma_by_slot(self.packets@);
        }
        self.enforce_limits();
        proof {
            assert(self@ =~= before.received(model, now));
            jitter_model::lemma_received_wf(before, model, now);
            lemma_by_slot(self.packets@);
        }
        self.packet_index(ext).is_ok()
    }

    /// Enforce the packet-count safety ceiling after an insert.
    fn enforce_limits(&mut self)
        requires
            is_sorted(old(self).packets@),
            old(self).packets.len() <= old(self).config.max_packets + 1,
            old(self).config.max_packets > 0,
            old(self).packets_dropped < u64::MAX,
        ensures
            is_sorted(final(self).packets@),
            final(self)@ == old(self)@.trimmed(),
    {
        proof {
            lemma_by_slot(self.packets@);
        }
        if self.packets.len() > self.config.max_packets {
            let ghost before = self@;
            proof {
                lemma_remove_packet(self.packets@, self.packets@.len() - 1);
                assert(jitter_model::is_last_slot(
                    before.packets,
                    self.packets@.last().extended_sequence_number,
                ));
            }
            let last: usize = self.packets.len() - 1;
            let buffered = self.packets.remove(last);
            self.packets_dropped = self.packets_dropped + 1;
            self.evicted_slots.insert(buffered.extended_sequence_number, buffered.packet.timestamp);
            proof {
                jitter_model::lemma_last_slot(before.packets, buffered.extended_sequence_number);
                assert(self@ =~= before.trimmed());
            }
        }
    }

    /// Emit the next frame-slot decision once its RTP playout deadline is due.
    ///
    /// This method never emits early. If the expected packet is missing but a
    /// later packet proves that the RTP sequence has a gap, it emits exactly
    /// one loss event and advances by one frame. Empty buffers produce no loss
    /// events because discontinuous transmission can legitimately leave
    /// timestamp gaps without consuming sequence numbers.
    pub fn pop_event(&mut self, now: u64) -> (event: Option<PlayoutEvent>)
        requires
            old(self).wf(),
            old(self)@.has_headroom(),
        ensures
            final(self).wf(),
            event is Some <==> old(self)@.is_due(now),
            event matches Some(event) ==> event@ == old(self)@.slot_event() && final(self)@
                == old(self)@.played(),
            event is None ==> final(self)@ == old(self)@,
    {
        let ghost before = self@;
        proof {
            lemma_by_slot(self.packets@);
        }
        match self.next_deadline() {
            None => {
                return None;
            },
            Some(deadline) => {
                if (now as u128) < deadline {
                    return None;
                }
            },
        }
        proof {
            jitter_model::lemma_played_wf(before);
        }
        self.playout_started = true;
        let frame_ticks: u32 = self.config.ticks_per_frame();
        let slot: i64 = self.next_seq;
        let slot_number: u16 = wire_sequence_number(slot);
        let first: Option<i64> = match self.packets.first() {
            Some(buffered) => Some(buffered.extended_sequence_number),
            None => None,
        };
        self.next_seq = slot + 1;
        assert(before.packets.contains_key(slot) <==> first == Some(slot)) by {
            if before.packets.contains_key(slot) {
                assert(sits_at(old(self).packets@, slot, position_of(old(self).packets@, slot)));
            }
        }

        // Fast path: the expected packet was buffered before its deadline.
        if first == Some(slot) {
            proof {
                lemma_remove_packet(self.packets@, 0);
            }
            let packet = self.packets.remove(0).packet;
            self.next_timestamp = packet.timestamp.wrapping_add(frame_ticks);
            self.packets_out = self.packets_out + 1;
            assert(self@ =~= before.played()) by {
                assert(before.evicted =~= before.evicted.remove(slot));
            }
            return Some(PlayoutEvent::Packet(packet));
        }
        assert(before.packets =~= before.packets.remove(slot));

        // A capacity eviction is still an explicit playout slot. It was counted
        // as dropped when evicted, so conceal it without counting it again.
        if let Some(timestamp) = self.evicted_slots.remove(&slot) {
            self.next_timestamp = timestamp.wrapping_add(frame_ticks);
            assert(self@ =~= before.played());
            return Some(PlayoutEvent::Missing { sequence_number: slot_number, timestamp });
        }

        // A later slot proves this one was lost. Advance one slot only so every
        // missing frame gets one concealment opportunity.
        let timestamp: u32 = self.next_timestamp;
        self.next_timestamp = timestamp.wrapping_add(frame_ticks);
        self.packets_dropped = self.packets_dropped + 1;
        assert(self@ =~= before.played());
        assert(before.packets.contains_key((slot + 1) as i64) <==> first == Some((slot + 1) as i64))
            by {
            if before.packets.contains_key((slot + 1) as i64) {
                let p = position_of(self.packets@, (slot + 1) as i64);
                assert(sits_at(self.packets@, (slot + 1) as i64, p));
                assert(before.packets.contains_key(self.packets@[0].extended_sequence_number));
            }
        }
        if first == Some(slot + 1) {
            let next_packet = self.packets[0].packet.clone();
            Some(
                PlayoutEvent::RecoveredWithNextPacket {
                    sequence_number: slot_number,
                    timestamp,
                    next_packet,
                },
            )
        } else {
            Some(PlayoutEvent::Missing { sequence_number: slot_number, timestamp })
        }
    }

    /// Pop only real packets.
    ///
    /// Loss events are consumed and returned as `None`; callers that decode
    /// audio should use [`JitterBuffer::pop_event`] so that recovery and
    /// concealment are applied.
    pub fn pop(&mut self, now: u64) -> (packet: Option<AudioPacket>)
        requires
            old(self).wf(),
            old(self)@.has_headroom(),
        ensures
            final(self).wf(),
            final(self)@ == (if old(self)@.is_due(now) {
                old(self)@.played()
            } else {
                old(self)@
            }),
            packet is Some <==> old(self)@.is_due(now) && old(self)@.packets.contains_key(
                old(self)@.next_seq,
            ),
            packet matches Some(packet) ==> packet@ == old(self)@.packets[old(self)@.next_seq],
    {
        match self.pop_event(now) {
            Some(PlayoutEvent::Packet(packet)) => Some(packet),
            _ => None,
        }
    }

    /// Snapshot of counters and the adaptive jitter estimate.
    pub fn stats(&self) -> (stats: JitterStats)
        requires
            self.wf(),
        ensures
            stats == (JitterStats {
                packets_in: self@.packets_in,
                packets_out: self@.packets_out,
                packets_dropped: self@.packets_dropped,
                packets_late: self@.packets_late,
                current_jitter: self@.timing.jitter,
                sample_rate: self@.config.sample_rate,
                current_target_latency: self@.timing.target,
            }),
    {
        JitterStats {
            packets_in: self.packets_in,
            packets_out: self.packets_out,
            packets_dropped: self.packets_dropped,
            packets_late: self.packets_late,
            current_jitter: self.timing.jitter,
            sample_rate: self.config.sample_rate,
            current_target_latency: self.timing.target,
        }
    }

    /// Whether packets are still waiting for their RTP playout deadlines.
    pub fn has_pending(&self) -> (pending: bool)
        requires
            self.wf(),
        ensures
            pending == self@.pending(),
    {
        proof {
            lemma_by_slot(self.packets@);
        }
        !self.packets.is_empty() || !self.evicted_slots.is_empty()
    }

    /// Deadline of the next buffered playout slot, in nanoseconds.
    pub fn next_deadline(&self) -> (deadline: Option<u128>)
        requires
            self.wf(),
        ensures
            match deadline {
                Some(deadline) => self@.next_deadline() == Some(deadline as int),
                None => self@.next_deadline() is None,
            },
    {
        if !self.has_pending() {
            return None;
        }
        proof {
            lemma_by_slot(self.packets@);
        }
        // An actual packet timestamp wins over the frame-size prediction. This
        // preserves deliberate timestamp gaps such as transmission pauses.
        let timestamp: u32 = match self.packet_index(self.next_seq) {
            Ok(index) => self.packets[index].packet.timestamp,
            Err(_) => match self.evicted_slots.get(&self.next_seq) {
                Some(timestamp) => *timestamp,
                None => self.next_timestamp,
            },
        };
        proof {
            self.timing.lemma_anchor_bound(self.config.limits(), self.playout_started);
        }
        Some(self.timing.deadline_for(timestamp, self.config.sample_rate))
    }

    /// Reset all state for a new stream (keeps the configuration).
    pub fn clear(&mut self)
        requires
            old(self).wf(),
        ensures
            final(self).wf(),
            final(self)@ == JitterModel::fresh(old(self)@.config),
    {
        let limits = self.config.timing_limits();
        self.packets.clear();
        self.evicted_slots.clear();
        self.started = false;
        self.next_seq = 0;
        self.next_timestamp = 0;
        self.playout_started = false;
        self.timing = Timing::new(&limits);
        self.packets_in = 0;
        self.packets_out = 0;
        self.packets_dropped = 0;
        self.packets_late = 0;
        proof {
            lemma_by_slot(self.packets@);
            assert(by_slot(self.packets@) =~= Map::empty());
            assert(self@ =~= JitterModel::fresh(self.config));
        }
    }
}

} // verus!
