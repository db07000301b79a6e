//! Mathematical model of the jitter buffer.
//!
//! A buffer is a map from extended sequence numbers to packets, a map of slots
//! whose packet was evicted, the position of the decoder and the timing state.
//! The executable buffer refines this model; its contracts speak of it.

use vstd::prelude::*;

use crate::audio::jitter::JitterBufferConfig;
use crate::audio::rtp;
use crate::audio::timing;
use crate::audio::timing::{Arrival, Timing};

verus! {

/// Contents of one audio packet.
#[verifier::ext_equal]
pub struct PacketModel {
    pub sequence_number: u16,
    pub timestamp: u32,
    pub payload: Seq<u8>,
}

/// Contents of one playout decision.
#[verifier::ext_equal]
pub enum EventModel {
    Packet(PacketModel),
    Missing { sequence_number: u16, timestamp: u32 },
    RecoveredWithNextPacket { sequence_number: u16, timestamp: u32, next_packet: PacketModel },
}

/// State of a jitter buffer.
#[verifier::ext_equal]
pub struct JitterModel {
    /// Sanitized configuration.
    pub config: JitterBufferConfig,
    /// Buffered packets by extended sequence number.
    pub packets: Map<i64, PacketModel>,
    /// Timestamps of slots whose packet was evicted.
    pub evicted: Map<i64, u32>,
    /// Whether the first packet has anchored the stream.
    pub started: bool,
    /// Whether the first slot has been played.
    pub playing: bool,
    /// Next extended sequence number the decoder expects.
    pub next_seq: i64,
    /// Timestamp predicted for `next_seq` when that packet is absent.
    pub next_timestamp: u32,
    /// Deadlines, startup depth and jitter estimate.
    pub timing: Timing,
    pub packets_in: u64,
    pub packets_out: u64,
    pub packets_dropped: u64,
    pub packets_late: u64,
}

/// `slot` is the last buffered slot.
pub open spec fn is_last_slot(packets: Map<i64, PacketModel>, slot: i64) -> bool {
    &&& packets.contains_key(slot)
    &&& forall|other: i64| #[trigger] packets.contains_key(other) ==> other <= slot
}

/// The last buffered slot.
pub open spec fn last_slot(packets: Map<i64, PacketModel>) -> i64 {
    choose|slot: i64| is_last_slot(packets, slot)
}

impl JitterModel {
    /// A buffer that has seen no packet.
    pub open spec fn fresh(config: JitterBufferConfig) -> JitterModel {
        JitterModel {
            config,
            packets: Map::empty(),
            evicted: Map::empty(),
            started: false,
            playing: false,
            next_seq: 0,
            next_timestamp: 0,
            timing: Timing::idle(config.limits()),
            packets_in: 0,
            packets_out: 0,
            packets_dropped: 0,
            packets_late: 0,
        }
    }

    /// What every reachable buffer satisfies.
    ///
    /// Buffered packets and evicted slots lie at or after the decoder position
    /// and do not overlap; no more packets are held than configured; a buffer
    /// that has not started is fresh; every accepted packet was played, is
    /// buffered, or was counted as dropped.
    pub open spec fn wf(self) -> bool {
        &&& self.config.is_sane()
        &&& self.packets.dom().finite()
        &&& self.evicted.dom().finite()
        &&& self.packets.len() <= self.config.max_packets
        &&& forall|slot: i64| #[trigger] self.packets.contains_key(slot) ==> self.next_seq <= slot
            && rtp::wire_sequence(slot as int) == self.packets[slot].sequence_number
        &&& forall|slot: i64| #[trigger]
            self.evicted.contains_key(slot) ==> self.next_seq <= slot
                && !self.packets.contains_key(slot)
        &&& !self.started ==> self == JitterModel::fresh(self.config)
        &&& self.started ==> self.timing.first is Some
        &&& self.timing.wf(self.config.limits(), self.playing)
        &&& self.packets_out + self.packets.len() + self.evicted.len() <= self.packets_in
        &&& self.packets_in <= self.packets_out + self.packets.len() + self.packets_dropped
    }

    /// The counters and the decoder position are far enough from the ends of
    /// their machine types for one more packet or slot.
    pub open spec fn has_headroom(self) -> bool {
        &&& self.packets_in < u64::MAX
        &&& self.packets_out < u64::MAX
        &&& self.packets_dropped < u64::MAX
        &&& self.packets_late < u64::MAX
        &&& i64::MIN + 0x8000 <= self.next_seq <= i64::MAX - 0x8000
    }

    /// Some slot awaits playout: a buffered packet or an evicted one.
    pub open spec fn pending(self) -> bool {
        ||| self.packets.len() > 0
        ||| self.evicted.len() > 0
    }

    /// The slot holds a packet or held one that was evicted.
    pub open spec fn knows(self, slot: i64) -> bool {
        ||| self.packets.contains_key(slot)
        ||| self.evicted.contains_key(slot)
    }

    /// RTP timestamp of the slot the decoder expects next: that of the packet
    /// if one was received, otherwise the prediction.
    pub open spec fn slot_timestamp(self) -> u32 {
        if self.packets.contains_key(self.next_seq) {
            self.packets[self.next_seq].timestamp
        } else if self.evicted.contains_key(self.next_seq) {
            self.evicted[self.next_seq]
        } else {
            self.next_timestamp
        }
    }

    /// Deadline of the next slot, if any slot awaits playout.
    pub open spec fn next_deadline(self) -> Option<int> {
        if self.pending() {
            Some(self.timing.deadline_of(self.slot_timestamp(), self.config.sample_rate))
        } else {
            None
        }
    }

    /// The next slot is to be played at `now`.
    pub open spec fn is_due(self, now: u64) -> bool {
        self.next_deadline() matches Some(deadline) && deadline <= now
    }

    /// Decision for the slot the decoder expects next.
    ///
    /// The packet itself if it is buffered; a loss otherwise, recoverable from
    /// the packet of the following slot if that one is buffered and the slot
    /// itself was not evicted.
    pub open spec fn slot_event(self) -> EventModel {
        let sequence_number = rtp::wire_sequence(self.next_seq as int);
        let timestamp = self.slot_timestamp();
        let following = (self.next_seq + 1) as i64;
        if self.packets.contains_key(self.next_seq) {
            EventModel::Packet(self.packets[self.next_seq])
        } else if !self.evicted.contains_key(self.next_seq) && self.packets.contains_key(
            following,
        ) {
            EventModel::RecoveredWithNextPacket {
                sequence_number,
                timestamp,
                next_packet: self.packets[following],
            }
        } else {
            EventModel::Missing { sequence_number, timestamp }
        }
    }

    /// State after the next slot has been played: the decoder position moves
    /// by one slot and the prediction by one frame. A gap counts as dropped;
    /// an evicted packet was counted when it was evicted.
    pub open spec fn played(self) -> JitterModel {
        JitterModel {
            packets: self.packets.remove(self.next_seq),
            evicted: self.evicted.remove(self.next_seq),
            playing: true,
            next_seq: (self.next_seq + 1) as i64,
            next_timestamp: rtp::timestamp_after(
                self.slot_timestamp(),
                self.config.frame_ticks(),
            ),
            packets_out: if self.packets.contains_key(self.next_seq) {
                (self.packets_out + 1) as u64
            } else {
                self.packets_out
            },
            packets_dropped: if self.knows(self.next_seq) {
                self.packets_dropped
            } else {
                (self.packets_dropped + 1) as u64
            },
            ..self
        }
    }

    /// State anchored on `packet` if no packet came before it.
    pub open spec fn anchored(self, packet: PacketModel, now: u64) -> JitterModel {
        if self.started {
            self
        } else {
            JitterModel {
                started: true,
                next_seq: packet.sequence_number as i64,
                next_timestamp: packet.timestamp,
                timing: self.timing.anchored(
                    Arrival { at: now, timestamp: packet.timestamp },
                    self.config.sample_rate,
                ),
                ..self
            }
        }
    }

    /// The slot a packet belongs to, nearest to the decoder position.
    pub open spec fn slot_of(self, packet: PacketModel) -> i64 {
        let reference = if self.started {
            self.next_seq as int
        } else {
            packet.sequence_number as int
        };
        rtp::extended_sequence(packet.sequence_number, reference) as i64
    }

    /// The packet's slot has already been played.
    pub open spec fn is_late(self, packet: PacketModel) -> bool {
        self.playing && self.slot_of(packet) < self.next_seq
    }

    /// The packet's slot is already taken.
    pub open spec fn is_duplicate(self, packet: PacketModel) -> bool {
        self.knows(self.slot_of(packet))
    }

    /// The packet is neither late nor a duplicate.
    pub open spec fn accepts(self, packet: PacketModel) -> bool {
        !self.is_late(packet) && !self.is_duplicate(packet)
    }

    /// State with the decoder position moved back to `slot` if that lies
    /// before it. The wall-clock startup deadline is kept.
    pub open spec fn rewound(self, slot: i64, timestamp: u32) -> JitterModel {
        if slot < self.next_seq {
            JitterModel {
                next_seq: slot,
                next_timestamp: timestamp,
                timing: self.timing.re_anchored(timestamp),
                ..self
            }
        } else {
            self
        }
    }

    /// State holding `packet` in `slot`, capacity not yet enforced.
    pub open spec fn stored(self, slot: i64, packet: PacketModel, now: u64) -> JitterModel {
        JitterModel {
            packets: self.packets.insert(slot, packet),
            packets_in: (self.packets_in + 1) as u64,
            timing: self.timing.observed(
                Arrival { at: now, timestamp: packet.timestamp },
                self.config.limits(),
                self.playing,
            ),
            ..self
        }
    }

    /// State with the last packet evicted if there is one too many. Its slot
    /// is remembered so that it still plays as a loss.
    pub open spec fn trimmed(self) -> JitterModel {
        if self.packets.len() > self.config.max_packets {
            let slot = last_slot(self.packets);
            JitterModel {
                packets: self.packets.remove(slot),
                evicted: self.evicted.insert(slot, self.packets[slot].timestamp),
                packets_dropped: (self.packets_dropped + 1) as u64,
                ..self
            }
        } else {
            self
        }
    }

    /// State after receiving `packet` at `now`: a late packet and a duplicate
    /// are only counted, any other packet is stored.
    pub open spec fn received(self, packet: PacketModel, now: u64) -> JitterModel {
        let slot = self.slot_of(packet);
        if self.is_late(packet) {
            JitterModel { packets_late: (self.packets_late + 1) as u64, ..self }
        } else if self.is_duplicate(packet) {
            JitterModel { packets_dropped: (self.packets_dropped + 1) as u64, ..self }
        } else {
            self.anchored(packet, now).rewound(slot, packet.timestamp).stored(
                slot,
                packet,
                now,
            ).trimmed()
        }
    }
}

/// There is only one last slot.
pub proof fn lemma_last_slot(packets: Map<i64, PacketModel>, slot: i64)
    requires
        is_last_slot(packets, slot),
    ensures
        last_slot(packets) == slot,
{
    let chosen = last_slot(packets);
    assert(is_last_slot(packets, chosen));
    assert(packets.contains_key(chosen) && packets.contains_key(slot));
}

/// A finite, non-empty buffer has a last slot.
pub proof fn lemma_last_slot_exists(packets: Map<i64, PacketModel>)
    requires
        packets.dom().finite(),
        packets.len() > 0,
    ensures
        is_last_slot(packets, last_slot(packets)),
    decreases packets.len(),
{
    let some = packets.dom().choose();
    assert(packets.contains_key(some));
    if packets.len() == 1 {
        assert forall|other: i64| #[trigger] packets.contains_key(other) implies other <= some by {
            if other != some {
                assert(packets.dom().remove(some).contains(other));
                assert(packets.dom().remove(some).len() == 0);
            }
        }
        assert(is_last_slot(packets, some));
    } else {
        let rest = packets.remove(some);
        lemma_last_slot_exists(rest);
        let last = last_slot(rest);
        assert(rest.contains_key(last));
        let top = if last >= some {
            last
        } else {
            some
        };
        assert forall|other: i64| #[trigger] packets.contains_key(other) implies other <= top by {
            if other != some {
                assert(rest.contains_key(other));
            }
        }
        assert(is_last_slot(packets, top));
    }
}

/// Receiving a packet keeps the buffer in a reachable state.
pub proof fn lemma_received_wf(before: JitterModel, packet: PacketModel, now: u64)
    requires
        before.wf(),
        before.has_headroom(),
    ensures
        before.received(packet, now).wf(),
{
    let slot = before.slot_of(packet);
    let reference = if before.started {
        before.next_seq as int
    } else {
        packet.sequence_number as int
    };
    rtp::lemma_extended_sequence(packet.sequence_number, reference);
    if before.accepts(packet) {
        let anchored = before.anchored(packet, now);
        if !before.started {
            timing::lemma_anchored_wf(
                before.timing,
                Arrival { at: now, timestamp: packet.timestamp },
                before.config.limits(),
            );
        }
        let rewound = anchored.rewound(slot, packet.timestamp);
        let stored = rewound.stored(slot, packet, now);
        assert(!rewound.knows(slot));
        timing::lemma_observed_wf(
            rewound.timing,
            Arrival { at: now, timestamp: packet.timestamp },
            before.config.limits(),
            before.playing,
        );
        if stored.packets.len() > stored.config.max_packets {
            lemma_last_slot_exists(stored.packets);
        }
    }
}

/// Playing the next slot keeps the buffer in a reachable state.
pub proof fn lemma_played_wf(before: JitterModel)
    requires
        before.wf(),
        before.has_headroom(),
        before.pending(),
    ensures
        before.played().wf(),
{
    let after = before.played();
    assert forall|slot: i64| #[trigger] after.packets.contains_key(slot) implies after.next_seq
        <= slot by {
        assert(before.packets.contains_key(slot));
    }
    assert forall|slot: i64| #[trigger] after.evicted.contains_key(slot) implies after.next_seq
        <= slot by {
        assert(before.evicted.contains_key(slot));
    }
}

} // verus!
