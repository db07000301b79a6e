//! Wall-clock side of the jitter buffer: startup depth, playout deadlines and
//! the inter-arrival jitter estimate.
//!
//! Instants are nanoseconds on a monotonic clock chosen by the caller. An RTP tick
//! need not last a whole number of nanoseconds, so transit times and the startup
//! depth are kept exactly, in nanoseconds times the clock rate. Only deadlines
//! are rounded to nanoseconds.

use vstd::prelude::*;

use crate::audio::rtp;
use crate::audio::rtp::{
    nanos_to_ticks, nearest_quotient, signed_timestamp_delta, ticks_to_nanos, NANOS_PER_SECOND,
};

verus! {

/// Units of the jitter estimate per RTP tick.
pub const JITTER_SCALE: u128 = 0x1000_0000_0000_0000;

/// Largest deviation, in ticks, that one packet can contribute to the jitter
/// estimate.
pub const MAX_DEVIATION: u128 = 0x8000_0000_8000_0000;

/// Upper bound of the jitter estimate: the largest deviation in scaled units.
pub const MAX_JITTER: u128 = 0x0800_0000_0800_0000_0000_0000_0000_0000;

/// When a packet arrived and which RTP timestamp it carried.
#[derive(Debug, Clone, Copy, PartialEq, Eq)]
pub struct Arrival {
    /// Arrival instant in nanoseconds.
    pub at: u64,
    /// RTP timestamp of the packet.
    pub timestamp: u32,
}

/// Fixed parameters of the timing rules.
#[derive(Debug, Clone, Copy, PartialEq, Eq)]
pub struct TimingLimits {
    /// Configured startup depth in nanoseconds.
    pub floor_ns: u64,
    /// Ceiling of the adaptive startup depth in nanoseconds.
    pub ceiling_ns: u64,
    /// RTP clock rate in Hz.
    pub rate: u32,
}

impl TimingLimits {
    /// The floor does not exceed the ceiling and the clock ticks.
    pub open spec fn wf(self) -> bool {
        &&& self.floor_ns <= self.ceiling_ns
        &&& self.rate > 0
    }

    /// The floor, in nanoseconds times the clock rate.
    pub open spec fn floor(self) -> int {
        self.floor_ns * self.rate
    }

    /// The ceiling, in nanoseconds times the clock rate.
    pub open spec fn ceiling(self) -> int {
        self.ceiling_ns * self.rate
    }

    /// Startup depth wanted for an observed transit spread: enough to cover
    /// the spread, never below the floor and never above the ceiling.
    pub open spec fn wanted(self, spread: int) -> int {
        if spread <= self.floor() {
            self.floor()
        } else if spread <= self.ceiling() {
            spread
        } else {
            self.ceiling()
        }
    }

    /// Floor and ceiling fit, in nanoseconds times the clock rate.
    proof fn lemma_bounds(self)
        requires
            self.wf(),
        ensures
            0 <= self.floor() <= self.ceiling() <= u64::MAX * self.rate <= u64::MAX * u32::MAX,
    {
        lemma_scaled_bound(self.floor_ns as int, self.rate as int);
        lemma_scaled_bound(self.ceiling_ns as int, self.rate as int);
        assert(self.floor() <= self.ceiling() <= u64::MAX * self.rate) by (nonlinear_arith)
            requires
                self.floor() == self.floor_ns * self.rate,
                self.ceiling() == self.ceiling_ns * self.rate,
                self.floor_ns <= self.ceiling_ns <= u64::MAX,
                self.rate >= 0,
        ;
    }
}

/// Timing state of one stream.
#[derive(Debug, Clone, Copy, PartialEq, Eq)]
pub struct Timing {
    /// RTP timestamp mapped onto the first playout deadline.
    pub anchor_timestamp: u32,
    /// Deadline, in nanoseconds, corresponding to `anchor_timestamp`.
    pub anchor_deadline: u128,
    /// Startup depth after adapting to the observed transit spread, in
    /// nanoseconds times the clock rate.
    pub target: u128,
    /// The first packet, against which later transit times are compared.
    pub first: Option<Arrival>,
    /// Largest observed increase in transit time over the first packet, in
    /// nanoseconds times the clock rate.
    pub max_transit: u128,
    /// Inter-arrival jitter estimate, in ticks times [`JITTER_SCALE`].
    pub jitter: u128,
    /// The packet accepted last.
    pub last: Option<Arrival>,
}

/// Nanoseconds from `from` to `to`, zero if `to` is earlier.
pub open spec fn elapsed(from: u64, to: u64) -> int {
    if to >= from {
        to - from
    } else {
        0
    }
}

/// By how much the transit time of a packet exceeded that of the first packet,
/// in nanoseconds times the clock rate; zero if it did not.
pub open spec fn transit_excess(first: Arrival, packet: Arrival, rate: u32) -> int {
    let spent = elapsed(first.at, packet.at) * rate;
    let expected = rtp::timestamp_advance(first.timestamp, packet.timestamp) * NANOS_PER_SECOND;
    if spent >= expected {
        spent - expected
    } else {
        0
    }
}

/// Distance in ticks between the arrival spacing and the timestamp spacing of
/// two packets. An arrival spacing beyond the signed 64-bit range counts as
/// the largest value of that range.
pub open spec fn deviation(previous: Arrival, packet: Arrival, rate: u32) -> int {
    let ticks = rtp::ticks_of_nanos(elapsed(previous.at, packet.at), rate as int);
    let spacing = if ticks <= i64::MAX {
        ticks
    } else {
        i64::MAX as int
    };
    let d = spacing - rtp::timestamp_distance(previous.timestamp, packet.timestamp);
    if d >= 0 {
        d
    } else {
        -d
    }
}

/// One step of the RFC 3550 estimator `J += (|D| - J) / 16`, in units of
/// [`JITTER_SCALE`] per tick, rounded down.
pub open spec fn jitter_step(jitter: int, deviation: int) -> int {
    (15 * jitter + deviation * JITTER_SCALE) / 16
}

impl Timing {
    /// State before the first packet.
    pub open spec fn idle(limits: TimingLimits) -> Timing {
        Timing {
            anchor_timestamp: 0,
            anchor_deadline: 0,
            target: limits.floor() as u128,
            first: None,
            max_transit: 0,
            jitter: 0,
            last: None,
        }
    }

    /// State anchored on the first packet of a stream.
    pub open spec fn anchored(self, packet: Arrival, rate: u32) -> Timing {
        Timing {
            anchor_timestamp: packet.timestamp,
            anchor_deadline: (packet.at + rtp::nearest(self.target as int, rate as int)) as u128,
            first: Some(packet),
            ..self
        }
    }

    /// State with the startup deadline moved to an earlier RTP timestamp.
    pub open spec fn re_anchored(self, timestamp: u32) -> Timing {
        Timing { anchor_timestamp: timestamp, ..self }
    }

    /// Transit spread once `packet` is taken into account.
    pub open spec fn spread_with(self, packet: Arrival, limits: TimingLimits) -> int {
        match self.first {
            Some(first) => {
                let excess = transit_excess(first, packet, limits.rate);
                if excess > self.max_transit {
                    excess
                } else {
                    self.max_transit as int
                }
            },
            None => self.max_transit as int,
        }
    }

    /// Jitter estimate once `packet` is taken into account. The first packet
    /// of a stream only initializes the comparison.
    pub open spec fn jitter_with(self, packet: Arrival, limits: TimingLimits) -> int {
        match self.last {
            Some(last) => jitter_step(self.jitter as int, deviation(last, packet, limits.rate)),
            None => self.jitter as int,
        }
    }

    /// State after accepting `packet`. The startup depth follows the transit
    /// spread upwards until playout has begun and is fixed from then on; the
    /// anchor deadline moves by as much as the depth grows, to the nearest
    /// nanosecond.
    pub open spec fn observed(self, packet: Arrival, limits: TimingLimits, playing: bool) -> Timing {
        let spread = self.spread_with(packet, limits);
        let wanted = limits.wanted(spread);
        let grows = !playing && wanted > self.target;
        Timing {
            max_transit: spread as u128,
            jitter: self.jitter_with(packet, limits) as u128,
            last: Some(packet),
            target: if grows {
                wanted as u128
            } else {
                self.target
            },
            anchor_deadline: if grows {
                (self.anchor_deadline + rtp::nearest(
                    wanted - self.target,
                    limits.rate as int,
                )) as u128
            } else {
                self.anchor_deadline
            },
            ..self
        }
    }

    /// Playout deadline of an RTP timestamp.
    pub open spec fn deadline_of(self, timestamp: u32, rate: u32) -> int {
        self.anchor_deadline + rtp::nanos_of_ticks(
            rtp::timestamp_advance(self.anchor_timestamp, timestamp),
            rate as int,
        )
    }

    /// What every reachable timing state satisfies.
    ///
    /// The startup depth lies between floor and ceiling; until playout begins
    /// it is exactly the depth wanted for the spread observed so far. The
    /// anchor deadline lies at least the floor after the first arrival, and
    /// beyond that at most twice as much as the depth exceeds the floor, which
    /// leaves room for rounding each step to a nanosecond.
    pub open spec fn wf(self, limits: TimingLimits, playing: bool) -> bool {
        &&& limits.wf()
        &&& limits.floor() <= self.target <= limits.ceiling()
        &&& !playing ==> self.target == limits.wanted(self.max_transit as int)
        &&& match self.first {
            Some(first) => {
                &&& first.at + limits.floor_ns <= self.anchor_deadline
                &&& (self.anchor_deadline - first.at - limits.floor_ns) * limits.rate <= 2 * (
                self.target - limits.floor())
            },
            None => {
                &&& self.anchor_deadline == 0
                &&& self.max_transit == 0
                &&& self.target == limits.floor()
            },
        }
        &&& self.jitter <= MAX_JITTER
    }

    /// The anchor deadline fits.
    pub proof fn lemma_anchor_bound(self, limits: TimingLimits, playing: bool)
        requires
            self.wf(limits, playing),
        ensures
            self.anchor_deadline <= 4 * u64::MAX,
    {
        limits.lemma_bounds();
        if let Some(first) = self.first {
            lemma_quotient_bound(
                self.anchor_deadline - first.at - limits.floor_ns,
                limits.rate as int,
            );
        }
    }

    /// The anchor deadline lies exactly the startup depth after the first
    /// arrival.
    pub open spec fn is_exact(self, rate: u32) -> bool {
        self.first matches Some(first) ==> (self.anchor_deadline - first.at) * rate
            == self.target
    }

    /// State before the first packet.
    pub fn new(limits: &TimingLimits) -> (timing: Timing)
        requires
            limits.wf(),
        ensures
            timing == Timing::idle(*limits),
            timing.wf(*limits, false),
    {
        proof {
            limits.lemma_bounds();
        }
        Timing {
            anchor_timestamp: 0,
            anchor_deadline: 0,
            target: limits.floor_ns as u128 * limits.rate as u128,
            first: None,
            max_transit: 0,
            jitter: 0,
            last: None,
        }
    }

    /// Anchor the stream on its first packet.
    pub fn anchor(&mut self, packet: Arrival, limits: &TimingLimits)
        requires
            old(self).wf(*limits, false),
        ensures
            *final(self) == old(self).anchored(packet, limits.rate),
    {
        proof {
            limits.lemma_bounds();
            rtp::law_nearest_is_within_half(self.target as int, limits.rate as int);
            lemma_quotient_bound(
                rtp::nearest(self.target as int, limits.rate as int),
                limits.rate as int,
            );
        }
        self.anchor_timestamp = packet.timestamp;
        self.anchor_deadline = packet.at as u128 + nearest_quotient(self.target, limits.rate);
        self.first = Some(packet);
    }

    /// Move the startup deadline to an earlier RTP timestamp.
    pub fn re_anchor(&mut self, timestamp: u32)
        ensures
            *final(self) == old(self).re_anchored(timestamp),
    {
        self.anchor_timestamp = timestamp;
    }

    /// Take an accepted packet into account.
    pub fn observe(&mut self, packet: Arrival, limits: &TimingLimits, playing: bool)
        requires
            old(self).wf(*limits, playing),
        ensures
            *final(self) == old(self).observed(packet, *limits, playing),
            final(self).wf(*limits, playing),
    {
        proof {
            self.lemma_anchor_bound(*limits, playing);
            lemma_observed_wf(*self, packet, *limits, playing);
        }
        self.update_transit_spread(packet, limits);
        self.update_jitter(packet, limits);
        self.adapt_startup_target(limits, playing);
    }

    /// Update the relative one-way transit spread. The RTP clock and the local
    /// clock need not share an epoch: subtracting both distances leaves only
    /// the change in network transit time.
    fn update_transit_spread(&mut self, packet: Arrival, limits: &TimingLimits)
        requires
            limits.wf(),
        ensures
            *final(self) == (Timing {
                max_transit: old(self).spread_with(packet, *limits) as u128,
                ..*old(self)
            }),
            old(self).spread_with(packet, *limits) <= u128::MAX,
            old(self).max_transit <= final(self).max_transit,
    {
        if let Some(first) = self.first {
            let elapsed: u64 = packet.at.saturating_sub(first.at);
            proof {
                lemma_scaled_bound(elapsed as int, limits.rate as int);
            }
            let spent: u128 = elapsed as u128 * limits.rate as u128;
            let ticks: u32 = packet.timestamp.wrapping_sub(first.timestamp);
            let expected: u128 = ticks as u128 * NANOS_PER_SECOND as u128;
            let excess: u128 = spent.saturating_sub(expected);
            if excess > self.max_transit {
                self.max_transit = excess;
            }
        }
    }

    /// Fold the deviation from the previous accepted packet into the jitter
    /// estimate.
    fn update_jitter(&mut self, packet: Arrival, limits: &TimingLimits)
        requires
            limits.wf(),
            old(self).jitter <= MAX_JITTER,
        ensures
            *final(self) == (Timing {
                jitter: old(self).jitter_with(packet, *limits) as u128,
                last: Some(packet),
                ..*old(self)
            }),
            0 <= old(self).jitter_with(packet, *limits) <= MAX_JITTER,
    {
        if let Some(last) = self.last {
            let ticks: u128 = nanos_to_ticks(packet.at.saturating_sub(last.at), limits.rate);
            let spacing: i128 = if ticks <= i64::MAX as u128 {
                ticks as i128
            } else {
                i64::MAX as i128
            };
            let d: i128 = spacing - signed_timestamp_delta(last.timestamp, packet.timestamp) as i128;
            let magnitude: u128 = if d >= 0 {
                d as u128
            } else {
                (-d) as u128
            };
            assert(magnitude == deviation(last, packet, limits.rate));
            self.jitter = (15 * self.jitter + magnitude * JITTER_SCALE) / 16;
        }
        self.last = Some(packet);
    }

    /// Raise the startup target just enough to cover the observed transit
    /// spread. Deadlines never move after playout begins; later spikes are
    /// handled by concealment.
    fn adapt_startup_target(&mut self, limits: &TimingLimits, playing: bool)
        requires
            limits.wf(),
            limits.floor() <= old(self).target <= limits.ceiling(),
            old(self).anchor_deadline <= 4 * u64::MAX,
        ensures
            *final(self) == ({
                let wanted = limits.wanted(old(self).max_transit as int);
                if !playing && wanted > old(self).target {
                    Timing {
                        target: wanted as u128,
                        anchor_deadline: (old(self).anchor_deadline + rtp::nearest(
                            wanted - old(self).target,
                            limits.rate as int,
                        )) as u128,
                        ..*old(self)
                    }
                } else {
                    *old(self)
                }
            }),
    {
        if playing {
            return;
        }
        proof {
            limits.lemma_bounds();
        }
        let floor: u128 = limits.floor_ns as u128 * limits.rate as u128;
        let ceiling: u128 = limits.ceiling_ns as u128 * limits.rate as u128;
        let wanted: u128 = if self.max_transit <= floor {
            floor
        } else if self.max_transit <= ceiling {
            self.max_transit
        } else {
            ceiling
        };
        if wanted <= self.target {
            return;
        }
        let increase: u128 = wanted - self.target;
        proof {
            rtp::law_nearest_is_within_half(increase as int, limits.rate as int);
            lemma_quotient_bound(
                rtp::nearest(increase as int, limits.rate as int),
                limits.rate as int,
            );
        }
        self.target = wanted;
        self.anchor_deadline = self.anchor_deadline + nearest_quotient(increase, limits.rate);
    }

    /// Stable deadline of an RTP timestamp, including wraparound.
    pub fn deadline_for(&self, timestamp: u32, rate: u32) -> (deadline: u128)
        requires
            rate > 0,
            self.anchor_deadline <= 4 * u64::MAX,
        ensures
            deadline == self.deadline_of(timestamp, rate),
    {
        let ticks: u32 = timestamp.wrapping_sub(self.anchor_timestamp);
        self.anchor_deadline + ticks_to_nanos(ticks, rate) as u128
    }
}

/// Taking a packet into account keeps the timing state a reachable one.
pub proof fn lemma_observed_wf(
    before: Timing,
    packet: Arrival,
    limits: TimingLimits,
    playing: bool,
)
    requires
        before.wf(limits, playing),
    ensures
        before.observed(packet, limits, playing).wf(limits, playing),
        0 <= before.jitter_with(packet, limits) <= MAX_JITTER,
{
    if let Some(last) = before.last {
        let d = deviation(last, packet, limits.rate);
        assert(0 <= d <= MAX_DEVIATION);
    }
    limits.lemma_bounds();
    let spread = before.spread_with(packet, limits);
    if let Some(first) = before.first {
        lemma_scaled_bound(elapsed(first.at, packet.at), limits.rate as int);
        let wanted = limits.wanted(spread);
        if !playing && wanted > before.target {
            let moved = rtp::nearest(wanted - before.target, limits.rate as int);
            let lead = before.anchor_deadline - first.at - limits.floor_ns;
            rtp::law_nearest_is_within_half(wanted - before.target, limits.rate as int);
            lemma_quotient_bound(moved, limits.rate as int);
            before.lemma_anchor_bound(limits, playing);
            assert((lead + moved) * limits.rate == lead * limits.rate + moved * limits.rate)
                by (nonlinear_arith);
        }
    }
}

/// Anchoring an idle stream keeps the timing state a reachable one; the first
/// deadline lies the floor after the arrival.
pub proof fn lemma_anchored_wf(before: Timing, packet: Arrival, limits: TimingLimits)
    requires
        before.wf(limits, false),
        before.first is None,
    ensures
        before.anchored(packet, limits.rate).wf(limits, false),
        before.anchored(packet, limits.rate).anchor_deadline == packet.at + limits.floor_ns,
{
    limits.lemma_bounds();
    rtp::law_nearest_keeps_whole_numbers(limits.floor_ns as int, limits.rate as int);
    assert(0 * limits.rate as int == 0);
}

/// A packet moves the anchor deadline by as much as it deepens the startup
/// buffer, to the nearest nanosecond.
pub proof fn lemma_step(before: Timing, packet: Arrival, limits: TimingLimits, playing: bool)
    requires
        before.wf(limits, playing),
    ensures
        ({
            let after = before.observed(packet, limits, playing);
            let moved = after.anchor_deadline - before.anchor_deadline;
            let deepened = after.target - before.target;
            &&& moved >= 0
            &&& deepened >= 0
            &&& -limits.rate <= 2 * (moved * limits.rate - deepened) <= limits.rate
            &&& deepened % limits.rate as int == 0 ==> moved * limits.rate == deepened
        }),
{
    limits.lemma_bounds();
    before.lemma_anchor_bound(limits, playing);
    let wanted = limits.wanted(before.spread_with(packet, limits));
    assert(0 * limits.rate as int == 0);
    if !playing && wanted > before.target {
        let moved = rtp::nearest(wanted - before.target, limits.rate as int);
        rtp::law_nearest_is_within_half(wanted - before.target, limits.rate as int);
        lemma_quotient_bound(moved, limits.rate as int);
    }
}

/// How far a packet raises the startup depth before playout.
pub proof fn lemma_depth_step(
    before: Timing,
    packet: Arrival,
    limits: TimingLimits,
    playing: bool,
)
    requires
        before.wf(limits, playing),
        before.first is Some,
    ensures
        ({
            let after = before.observed(packet, limits, playing);
            let excess = transit_excess(before.first->0, packet, limits.rate);
            &&& playing || excess <= before.target ==> after.target == before.target
                && after.anchor_deadline == before.anchor_deadline
            &&& !playing && before.target < excess <= limits.ceiling() ==> after.target == excess
            &&& !playing && excess > limits.ceiling() ==> after.target == limits.ceiling()
            &&& after.anchor_deadline - before.anchor_deadline == rtp::nearest(
                after.target - before.target,
                limits.rate as int,
            )
        }),
{
    limits.lemma_bounds();
    before.lemma_anchor_bound(limits, playing);
    rtp::law_nearest_keeps_whole_numbers(0, limits.rate as int);
    assert(0 * limits.rate as int == 0);
    lemma_scaled_bound(elapsed(before.first->0.at, packet.at), limits.rate as int);
    let wanted = limits.wanted(before.spread_with(packet, limits));
    if !playing && wanted > before.target {
        rtp::law_nearest_is_within_half(wanted - before.target, limits.rate as int);
        lemma_quotient_bound(
            rtp::nearest(wanted - before.target, limits.rate as int),
            limits.rate as int,
        );
    }
}

/// The time between two arrivals in ticks, rounded to the nearest tick. An arrival
/// before the other one counts as one at the same instant, and more ticks than the
/// signed 64-bit range holds count as the largest number of that range.
pub open spec fn is_spacing(from: u64, to: u64, rate: u32, spacing: int) -> bool {
    let passed = if to >= from {
        to - from
    } else {
        0
    };
    if 2 * (passed * rate) < (2 * i64::MAX + 1) * 1_000_000_000 {
        -1_000_000_000 < 2 * (spacing * 1_000_000_000 - passed * rate) <= 1_000_000_000
    } else {
        spacing == i64::MAX
    }
}

/// Two packets deviate by the difference between the time between their arrivals
/// and the signed way between their timestamps.
///
/// `spacing` is the time between the arrivals in ticks, and `distance` the way from
/// the earlier timestamp to the later one, less than half the timestamp space
/// either way.
pub proof fn law_deviation_compares_signed_spacings(
    previous: Arrival,
    packet: Arrival,
    rate: u32,
    spacing: int,
    distance: int,
)
    requires
        is_spacing(previous.at, packet.at, rate, spacing),
        -0x8000_0000 <= distance < 0x8000_0000,
        (previous.timestamp + distance - packet.timestamp) % 0x1_0000_0000 == 0,
    ensures
        spacing >= distance ==> deviation(previous, packet, rate) == spacing - distance,
        spacing < distance ==> deviation(previous, packet, rate) == distance - spacing,
{
    let passed = if packet.at >= previous.at {
        packet.at - previous.at
    } else {
        0
    };
    let exact = rtp::ticks_of_nanos(passed, rate as int);
    rtp::law_duration_is_rounded_to_ticks(passed, rate as int, exact);
    rtp::law_duration_is_rounded_to_ticks(passed, rate as int, spacing);
    rtp::law_distance_is_signed(previous.timestamp, packet.timestamp, distance);
}

/// Of two packets that arrive at the same instant it does not matter to the
/// deviation which came first: it is the distance of their timestamps, so a
/// packet that is `ticks` behind the one before it deviates by `ticks`.
pub proof fn law_reordered_packet_deviates_by_its_distance(
    at: u64,
    earlier: u32,
    later: u32,
    rate: u32,
    ticks: int,
)
    requires
        0 <= ticks < 0x8000_0000,
        (earlier + ticks - later) % 0x1_0000_0000 == 0,
    ensures
        deviation(
            Arrival { at, timestamp: earlier },
            Arrival { at, timestamp: later },
            rate,
        ) == ticks,
        deviation(
            Arrival { at, timestamp: later },
            Arrival { at, timestamp: earlier },
            rate,
        ) == ticks,
{
    let one = Arrival { at, timestamp: earlier };
    let other = Arrival { at, timestamp: later };
    assert(0 * rate as int == 0);
    law_deviation_compares_signed_spacings(one, other, rate, 0, ticks);
    law_deviation_compares_signed_spacings(other, one, rate, 0, -ticks);
}

/// A packet whose arrival and timestamp are equally far behind those of the first
/// packet took as long as it and has no excess; arriving later by a number of
/// nanoseconds adds exactly those.
pub proof fn law_excess_is_the_added_transit_time(
    first: Arrival,
    packet: Arrival,
    rate: u32,
    behind: int,
)
    requires
        packet.at >= first.at,
        0 <= behind < 0x1_0000_0000,
        (first.timestamp + behind - packet.timestamp) % 0x1_0000_0000 == 0,
    ensures
        transit_excess(first, packet, rate) >= 0,
        transit_excess(first, packet, rate) >= (packet.at - first.at) * rate - behind
            * 1_000_000_000,
        transit_excess(first, packet, rate) == 0 || transit_excess(first, packet, rate) == (
        packet.at - first.at) * rate - behind * 1_000_000_000,
{
    rtp::law_advance_leads_to_the_timestamp(first.timestamp, packet.timestamp, behind);
}

/// A step of the jitter estimate goes a sixteenth of the way to the deviation: it
/// stays between the two, and an estimate that equals the deviation stays.
pub proof fn law_jitter_step_approaches_the_deviation(jitter: int, deviation: int)
    requires
        jitter >= 0,
        deviation >= 0,
    ensures
        16 * jitter_step(jitter, deviation) <= 15 * jitter + deviation * JITTER_SCALE < 16
            * jitter_step(jitter, deviation) + 16,
        jitter_step(deviation * JITTER_SCALE, deviation) == deviation * JITTER_SCALE,
        jitter <= deviation * JITTER_SCALE ==> jitter <= jitter_step(jitter, deviation)
            <= deviation * JITTER_SCALE,
        jitter >= deviation * JITTER_SCALE ==> deviation * JITTER_SCALE <= jitter_step(
            jitter,
            deviation,
        ) <= jitter,
{
}

/// A packet that is whole nanoseconds behind the first one on the RTP clock
/// keeps the anchor deadline exactly the startup depth after the first arrival.
pub proof fn lemma_exact_step(
    before: Timing,
    packet: Arrival,
    limits: TimingLimits,
    playing: bool,
)
    requires
        before.wf(limits, playing),
        before.is_exact(limits.rate),
        before.first matches Some(first) ==> (rtp::timestamp_advance(
            first.timestamp,
            packet.timestamp,
        ) * NANOS_PER_SECOND) % limits.rate as int == 0,
    ensures
        before.observed(packet, limits, playing).is_exact(limits.rate),
{
    lemma_step(before, packet, limits, playing);
    let rate = limits.rate as int;
    let after = before.observed(packet, limits, playing);
    if let Some(first) = before.first {
        let lead = before.anchor_deadline - first.at;
        let moved = after.anchor_deadline - before.anchor_deadline;
        let deepened = after.target - before.target;
        limits.lemma_bounds();
        lemma_scaled_bound(elapsed(first.at, packet.at), rate);
        if deepened > 0 {
            let expected = rtp::timestamp_advance(first.timestamp, packet.timestamp)
                * NANOS_PER_SECOND;
            let spent = elapsed(first.at, packet.at);
            let ticks = expected / rate;
            vstd::arithmetic::div_mod::lemma_fundamental_div_mod(expected, rate);
            let depth = if after.target == limits.ceiling() {
                limits.ceiling_ns as int
            } else {
                spent - ticks
            };
            assert(spent * rate - rate * ticks == (spent - ticks) * rate) by (nonlinear_arith);
            assert(after.target == depth * rate);
            assert(depth * rate - lead * rate == (depth - lead) * rate) by (nonlinear_arith);
            vstd::arithmetic::div_mod::lemma_fundamental_div_mod_converse(
                deepened,
                rate,
                depth - lead,
                0,
            );
        } else {
            assert(after.target == before.target);
            assert(moved * rate == 0);
        }
        assert((lead + moved) * rate == lead * rate + moved * rate) by (nonlinear_arith);
    }
}

/// The state before the first packet is a reachable one.
pub proof fn lemma_idle_wf(limits: TimingLimits)
    requires
        limits.wf(),
    ensures
        Timing::idle(limits).wf(limits, false),
{
    limits.lemma_bounds();
}

/// A number of nanoseconds times the clock rate fits.
proof fn lemma_scaled_bound(nanos: int, rate: int)
    requires
        0 <= nanos <= u64::MAX,
        0 <= rate <= u32::MAX,
    ensures
        0 <= nanos * rate <= u64::MAX * u32::MAX,
{
    assert(0 <= nanos * rate <= u64::MAX * u32::MAX) by (nonlinear_arith)
        requires
            0 <= nanos <= u64::MAX,
            0 <= rate <= u32::MAX,
    ;
}

/// A rounded quotient of a depth is a number of nanoseconds.
proof fn lemma_quotient_bound(quotient: int, rate: int)
    requires
        0 <= quotient * rate <= 2 * (u64::MAX * rate),
        0 < rate,
    ensures
        0 <= quotient <= 2 * u64::MAX,
{
    assert(0 <= quotient <= 2 * u64::MAX) by (nonlinear_arith)
        requires
            0 <= quotient * rate <= 2 * (u64::MAX * rate),
            0 < rate,
    ;
}

/// The jitter estimate after a sequence of deviations, starting from zero.
pub open spec fn estimated_jitter(deviations: Seq<nat>) -> int
    decreases deviations.len(),
{
    if deviations.len() == 0 {
        0
    } else {
        jitter_step(estimated_jitter(deviations.drop_last()), deviations.last() as int)
    }
}

/// The unrounded estimate `J += (|D| - J) / 16` after a sequence of deviations,
/// in units of [`JITTER_SCALE`] per tick, multiplied by 16 to the power of
/// their number.
pub open spec fn unrounded_jitter(deviations: Seq<nat>) -> int
    decreases deviations.len(),
{
    if deviations.len() == 0 {
        0
    } else {
        15 * unrounded_jitter(deviations.drop_last()) + deviations.last() * JITTER_SCALE
            * vstd::arithmetic::power::pow(16, (deviations.len() - 1) as nat)
    }
}

/// However long a stream is, rounding keeps the jitter estimate within sixteen
/// units of [`JITTER_SCALE`] per tick below the unrounded estimate, and never
/// above it.
pub proof fn law_jitter_rounding_is_bounded(deviations: Seq<nat>)
    ensures
        estimated_jitter(deviations) * vstd::arithmetic::power::pow(16, deviations.len())
            <= unrounded_jitter(deviations),
        unrounded_jitter(deviations) < (estimated_jitter(deviations) + 16)
            * vstd::arithmetic::power::pow(16, deviations.len()),
    decreases deviations.len(),
{
    if deviations.len() == 0 {
        vstd::arithmetic::power::lemma_pow0(16);
        assert(estimated_jitter(deviations) * vstd::arithmetic::power::pow(16, 0) == 0);
    } else {
        let earlier = deviations.drop_last();
        law_jitter_rounding_is_bounded(earlier);
        let old_estimate = estimated_jitter(earlier);
        let old_exact = unrounded_jitter(earlier);
        let input = deviations.last() * JITTER_SCALE;
        let scale = vstd::arithmetic::power::pow(16, earlier.len());
        let estimate = estimated_jitter(deviations);
        let exact = unrounded_jitter(deviations);
        vstd::arithmetic::power::lemma_pow_positive(16, earlier.len());
        assert(vstd::arithmetic::power::pow(16, deviations.len()) == 16 * scale) by {
            reveal(vstd::arithmetic::power::pow);
        }
        assert(estimate == (15 * old_estimate + input) / 16);
        assert(exact == 15 * old_exact + input * scale);
        assert(estimate * (16 * scale) <= exact) by (nonlinear_arith)
            requires
                16 * estimate <= 15 * old_estimate + input,
                old_estimate * scale <= old_exact,
                exact == 15 * old_exact + input * scale,
                scale > 0,
        ;
        assert(exact < (estimate + 16) * (16 * scale)) by (nonlinear_arith)
            requires
                15 * old_estimate + input <= 16 * estimate + 15,
                old_exact < (old_estimate + 16) * scale,
                exact == 15 * old_exact + input * scale,
                scale > 0,
        ;
    }
}

/// Before the first packet there is nothing to compare with, and the depth is the
/// configured floor.
pub proof fn law_new_timing_waits_for_a_packet(limits: TimingLimits, timing: Timing)
    requires
        limits.wf(),
        call_ensures(Timing::new, (&limits,), timing),
    ensures
        timing.first is None,
        timing.last is None,
        timing.jitter == 0,
        timing.max_transit == 0,
        timing.target == limits.floor_ns * limits.rate,
        timing.anchor_deadline == 0,
{
    limits.lemma_bounds();
}

/// Anchoring maps the packet's timestamp onto its arrival and the depth, to the
/// nearest nanosecond; re-anchoring maps an earlier timestamp onto the same
/// instant.
pub proof fn law_anchor_is_the_depth_after_the_arrival(
    timing: &mut Timing,
    packet: Arrival,
    limits: TimingLimits,
)
    requires
        old(timing).wf(limits, false),
        call_ensures(Timing::anchor, (timing, packet, &limits), ()),
    ensures
        final(timing).anchor_timestamp == packet.timestamp,
        rtp::is_nearest(
            final(timing).anchor_deadline - packet.at,
            old(timing).target as int,
            limits.rate as int,
        ),
        final(timing).first == Some(packet),
        final(timing).last == old(timing).last,
        final(timing).target == old(timing).target,
        final(timing).jitter == old(timing).jitter,
        final(timing).max_transit == old(timing).max_transit,
{
    limits.lemma_bounds();
    let moved = rtp::nearest(old(timing).target as int, limits.rate as int);
    rtp::law_nearest_is_within_half(old(timing).target as int, limits.rate as int);
    lemma_quotient_bound(moved, limits.rate as int);
    rtp::law_rounding_finds_the_nearest(old(timing).target as int, limits.rate as int, moved);
}

/// Re-anchoring changes the timestamp of the anchor and nothing else.
pub proof fn law_re_anchoring_keeps_the_instant(timing: &mut Timing, timestamp: u32)
    requires
        call_ensures(Timing::re_anchor, (timing, timestamp), ()),
    ensures
        final(timing).anchor_timestamp == timestamp,
        final(timing).anchor_deadline == old(timing).anchor_deadline,
        final(timing).first == old(timing).first,
        final(timing).last == old(timing).last,
        final(timing).target == old(timing).target,
        final(timing).jitter == old(timing).jitter,
        final(timing).max_transit == old(timing).max_transit,
{
}

/// A deadline lies behind the anchor by what the ticks between them last, to the
/// nearest nanosecond. `ahead` is the way from the anchor forward to the timestamp.
pub proof fn law_deadline_follows_the_clock(
    timing: Timing,
    timestamp: u32,
    rate: u32,
    deadline: u128,
    ahead: int,
)
    requires
        rate > 0,
        0 <= ahead < 0x1_0000_0000,
        (timing.anchor_timestamp + ahead - timestamp) % 0x1_0000_0000 == 0,
        call_ensures(Timing::deadline_for, (&timing, timestamp, rate), deadline),
    ensures
        rtp::is_nearest(
            deadline - timing.anchor_deadline,
            ahead * 1_000_000_000,
            rate as int,
        ),
{
    rtp::law_advance_leads_to_the_timestamp(timing.anchor_timestamp, timestamp, ahead);
    rtp::law_ticks_last_their_share_of_a_second(
        ahead,
        rate as int,
        deadline - timing.anchor_deadline,
    );
}

/// Taking a packet into account remembers it as the last one and keeps the first
/// one and the anchor's timestamp. The jitter estimate goes a sixteenth of the way
/// to the deviation from the packet before it and stays if there is none.
pub proof fn law_observed_packet_moves_the_jitter(
    timing: &mut Timing,
    packet: Arrival,
    limits: TimingLimits,
    playing: bool,
    spacing: int,
    distance: int,
)
    requires
        old(timing).wf(limits, playing),
        call_ensures(Timing::observe, (timing, packet, &limits, playing), ()),
        old(timing).last matches Some(last) ==> {
            &&& is_spacing(last.at, packet.at, limits.rate, spacing)
            &&& -0x8000_0000 <= distance < 0x8000_0000
            &&& (last.timestamp + distance - packet.timestamp) % 0x1_0000_0000 == 0
        },
    ensures
        final(timing).last == Some(packet),
        final(timing).first == old(timing).first,
        final(timing).anchor_timestamp == old(timing).anchor_timestamp,
        old(timing).last is None ==> final(timing).jitter == old(timing).jitter,
        old(timing).last is Some ==> {
            let deviation = if spacing >= distance {
                spacing - distance
            } else {
                distance - spacing
            };
            let exact = 15 * old(timing).jitter + deviation * 0x1000_0000_0000_0000;
            16 * final(timing).jitter <= exact < 16 * final(timing).jitter + 16
        },
{
    lemma_observed_wf(*old(timing), packet, limits, playing);
    if let Some(last) = old(timing).last {
        law_deviation_compares_signed_spacings(last, packet, limits.rate, spacing, distance);
    }
}

/// Taking a packet into account deepens the startup buffer until playout begins,
/// just enough to cover what its transit took longer than that of the first packet
/// and no more than the ceiling; the anchor moves by as much, to the nearest
/// nanosecond. `behind` is how far the packet lies behind the first one on the RTP
/// clock.
pub proof fn law_observed_packet_deepens_the_buffer(
    timing: &mut Timing,
    packet: Arrival,
    limits: TimingLimits,
    playing: bool,
    behind: int,
)
    requires
        old(timing).wf(limits, playing),
        old(timing).first is Some,
        call_ensures(Timing::observe, (timing, packet, &limits, playing), ()),
        0 <= behind < 0x1_0000_0000,
        (old(timing).first->0.timestamp + behind - packet.timestamp) % 0x1_0000_0000 == 0,
    ensures
        ({
            let rate = limits.rate as int;
            let ceiling = limits.ceiling_ns * rate;
            let excess = (packet.at - old(timing).first->0.at) * rate - behind * 1_000_000_000;
            &&& playing || excess <= old(timing).target ==> final(timing).target
                == old(timing).target && final(timing).anchor_deadline
                == old(timing).anchor_deadline
            &&& !playing && old(timing).target < excess <= ceiling ==> final(timing).target
                == excess
            &&& !playing && excess > ceiling ==> final(timing).target == ceiling
            &&& rtp::is_nearest(
                final(timing).anchor_deadline - old(timing).anchor_deadline,
                final(timing).target - old(timing).target,
                rate,
            )
            &&& excess <= old(timing).max_transit ==> final(timing).max_transit
                == old(timing).max_transit
            &&& excess > old(timing).max_transit ==> final(timing).max_transit == excess
        }),
{
    let before = *old(timing);
    let rate = limits.rate as int;
    let first = before.first->0;
    rtp::law_advance_leads_to_the_timestamp(first.timestamp, packet.timestamp, behind);
    lemma_depth_step(before, packet, limits, playing);
    lemma_scaled_bound(elapsed(first.at, packet.at), rate);
    rtp::law_rounding_finds_the_nearest(
        final(timing).target - before.target,
        rate,
        final(timing).anchor_deadline - before.anchor_deadline,
    );
    if packet.at < first.at {
        assert((packet.at - first.at) * rate <= 0) by (nonlinear_arith)
            requires
                packet.at < first.at,
                rate > 0,
        ;
    }
}

} // verus!
