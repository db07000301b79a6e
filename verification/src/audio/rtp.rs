//! RTP sequence number and timestamp arithmetic.
//!
//! Sequence numbers and timestamps wrap on the wire. Sequence numbers are
//! unfolded into a 64-bit counter relative to a known position in the stream;
//! timestamps are compared by the distance travelled modulo 2^32.

use vstd::prelude::*;

verus! {

/// Nanoseconds in one second.
pub const NANOS_PER_SECOND: u64 = 1_000_000_000;

/// Nanoseconds in one millisecond.
pub const NANOS_PER_MILLI: u64 = 1_000_000;

/// The sequence number that a position of the unfolded counter has on the wire.
pub open spec fn wire_sequence(extended: int) -> u16 {
    (extended % 0x1_0000) as u16
}

/// The position nearest to `reference` whose wire sequence number is `seq`:
/// at most 32768 behind it and at most 32767 ahead of it.
pub open spec fn extended_sequence(seq: u16, reference: int) -> int {
    let ahead = (seq as int - reference) % 0x1_0000;
    if ahead < 0x8000 {
        reference + ahead
    } else {
        reference + ahead - 0x1_0000
    }
}

/// Ticks from timestamp `from` forward to timestamp `to`, modulo 2^32.
pub open spec fn timestamp_advance(from: u32, to: u32) -> int {
    (to as int - from as int) % 0x1_0000_0000
}

/// Signed distance in ticks from timestamp `from` to timestamp `to`, in
/// `[-2^31, 2^31)`.
pub open spec fn timestamp_distance(from: u32, to: u32) -> int {
    let advance = timestamp_advance(from, to);
    if advance < 0x8000_0000 {
        advance
    } else {
        advance - 0x1_0000_0000
    }
}

/// A timestamp moved forward by `ticks`, modulo 2^32.
pub open spec fn timestamp_after(timestamp: u32, ticks: u32) -> u32 {
    ((timestamp + ticks) % 0x1_0000_0000) as u32
}

/// `amount / unit`, rounded to the nearest whole number; halfway between two, to
/// the even one.
pub open spec fn nearest(amount: int, unit: int) -> int {
    let below = amount / unit;
    let rest = amount % unit;
    if 2 * rest < unit || (2 * rest == unit && below % 2 == 0) {
        below
    } else {
        below + 1
    }
}

/// Duration of `ticks` RTP ticks at `rate` Hz, rounded to the nearest
/// nanosecond.
pub open spec fn nanos_of_ticks(ticks: int, rate: int) -> int {
    nearest(ticks * NANOS_PER_SECOND, rate)
}

/// Number of RTP ticks at `rate` Hz in `nanos` nanoseconds, rounded to the
/// nearest tick.
pub open spec fn ticks_of_nanos(nanos: int, rate: int) -> int {
    (2 * (nanos * rate) + NANOS_PER_SECOND) / (2 * NANOS_PER_SECOND as int)
}

/// Unfold a raw sequence number into the extended sequence space relative to
/// `reference`, choosing the representative closest to the reference.
///
/// This is what makes the wraparound compare correctly: `0` seen next to
/// `65535` unfolds to `65536`.
pub fn extend_seq(seq: u16, reference: i64) -> (extended: i64)
    requires
        i64::MIN + 0x8000 <= reference <= i64::MAX - 0x7fff,
    ensures
        extended == extended_sequence(seq, reference as int),
        wire_sequence(extended as int) == seq,
        -0x8000 <= extended - reference <= 0x7fff,
{
    let low: u16 = wire_sequence_number(reference);
    let ahead: u16 = seq.wrapping_sub(low);
    let diff: i16 = ahead as i16;
    proof {
        assert(ahead < 0x8000 ==> (ahead as i16) as int == ahead as int) by (bit_vector);
        assert(ahead >= 0x8000 ==> (ahead as i16) as int == ahead as int - 0x1_0000)
            by (bit_vector);
        let r = reference as int;
        assert(low == r % 0x1_0000);
        assert(ahead as int == (seq as int - r) % 0x1_0000);
        lemma_extended_sequence(seq, r);
    }
    reference + diff as i64
}

/// The low 16 bits of an extended sequence number.
pub fn wire_sequence_number(extended: i64) -> (seq: u16)
    ensures
        seq == wire_sequence(extended as int),
{
    let seq: u16 = #[verifier::truncate] (extended as u16);
    proof {
        assert(extended - ((extended as u16) as i64) == ((extended >> 16) as int) * 0x1_0000)
            by (bit_vector);
        assert(extended as int % 0x1_0000 == seq as int);
    }
    seq
}

/// Signed, wrap-safe distance in ticks between two timestamps.
pub fn signed_timestamp_delta(from: u32, to: u32) -> (delta: i64)
    ensures
        delta == timestamp_distance(from, to),
        -0x8000_0000 <= delta < 0x8000_0000,
{
    let advance: u32 = to.wrapping_sub(from);
    let delta: i32 = #[verifier::truncate] (advance as i32);
    proof {
        assert(advance < 0x8000_0000u32 ==> (advance as i32) as int == advance as int)
            by (bit_vector);
        assert(advance >= 0x8000_0000u32 ==> (advance as i32) as int == advance as int
            - 0x1_0000_0000) by (bit_vector);
    }
    delta as i64
}

/// The quotient rounded to nearest, ties to even.
pub fn nearest_quotient(amount: u128, unit: u32) -> (quotient: u128)
    requires
        unit > 0,
        amount < u128::MAX,
    ensures
        quotient == nearest(amount as int, unit as int),
{
    let below: u128 = amount / unit as u128;
    let rest: u128 = amount % unit as u128;
    assert(below <= amount) by (nonlinear_arith)
        requires
            below == amount as int / unit as int,
            unit > 0,
    ;
    if 2 * rest < unit as u128 || (2 * rest == unit as u128 && below % 2 == 0) {
        below
    } else {
        below + 1
    }
}

/// Duration of a number of RTP ticks in nanoseconds, rounded to nearest, ties
/// to even.
pub fn ticks_to_nanos(ticks: u32, rate: u32) -> (nanos: u64)
    requires
        rate > 0,
    ensures
        nanos == nanos_of_ticks(ticks as int, rate as int),
{
    assert(ticks as int * NANOS_PER_SECOND as int <= 0xffff_ffff * 1_000_000_000);
    let exact: u128 = ticks as u128 * NANOS_PER_SECOND as u128;
    let nanos: u128 = nearest_quotient(exact, rate);
    proof {
        law_nearest_is_within_half(exact as int, rate as int);
        assert(nanos <= 2 * exact) by (nonlinear_arith)
            requires
                nanos * rate <= 2 * exact,
                rate >= 1,
                nanos >= 0,
        ;
    }
    nanos as u64
}

/// Number of RTP ticks in a duration, rounded to nearest.
pub fn nanos_to_ticks(nanos: u64, rate: u32) -> (ticks: u128)
    ensures
        ticks == ticks_of_nanos(nanos as int, rate as int),
{
    assert(0 <= nanos as int * rate as int <= 0xffff_ffff_ffff_ffff * 0xffff_ffff)
        by (nonlinear_arith)
        requires
            0 <= nanos <= 0xffff_ffff_ffff_ffff,
            0 <= rate <= 0xffff_ffff,
    ;
    let product: u128 = nanos as u128 * rate as u128;
    (2 * product + NANOS_PER_SECOND as u128) / (2 * NANOS_PER_SECOND as u128)
}

/// Unfolding is exact: the chosen position carries the sequence number and
/// lies within half the sequence space of the reference.
pub proof fn lemma_extended_sequence(seq: u16, reference: int)
    ensures
        wire_sequence(extended_sequence(seq, reference)) == seq,
        -0x8000 <= extended_sequence(seq, reference) - reference <= 0x7fff,
{
    let ahead = (seq as int - reference) % 0x1_0000;
    let x = extended_sequence(seq, reference);
    assert(x % 0x1_0000 == seq as int);
}

/// Unfolding inverts wrapping: every position within half the sequence space
/// of the reference is recovered from its wire sequence number.
pub proof fn law_extension_inverts_wrapping(position: int, reference: int)
    requires
        -0x8000 <= position - reference <= 0x7fff,
    ensures
        extended_sequence(wire_sequence(position), reference) == position,
{
}

/// Rounding to nearest is off by at most half a unit; it gives no more than
/// twice the quotient, and the quotient itself if that is whole.
pub proof fn law_nearest_is_within_half(amount: int, unit: int)
    requires
        0 <= amount,
        0 < unit,
    ensures
        -unit <= 2 * (nearest(amount, unit) * unit - amount) <= unit,
        0 <= nearest(amount, unit) * unit <= 2 * amount,
        nearest(amount, unit) >= 0,
        amount % unit == 0 ==> nearest(amount, unit) * unit == amount,
{
    let below = amount / unit;
    vstd::arithmetic::div_mod::lemma_fundamental_div_mod(amount, unit);
    vstd::arithmetic::div_mod::lemma_div_pos_is_pos(amount, unit);
    assert((below + 1) * unit == unit * below + unit) by (nonlinear_arith);
    assert(below * unit == unit * below) by (nonlinear_arith);
    assert(unit * below >= 0) by (nonlinear_arith)
        requires
            unit > 0,
            below >= 0,
    ;
}

/// Rounding a whole number of units gives that number.
pub proof fn law_nearest_keeps_whole_numbers(count: int, unit: int)
    requires
        0 < unit,
    ensures
        nearest(count * unit, unit) == count,
{
    vstd::arithmetic::div_mod::lemma_fundamental_div_mod_converse(count * unit, unit, count, 0);
}

/// Rounding to nearest keeps the order.
pub proof fn law_nearest_is_monotonic(smaller: int, larger: int, unit: int)
    requires
        0 <= smaller <= larger,
        0 < unit,
    ensures
        nearest(smaller, unit) <= nearest(larger, unit),
{
    vstd::arithmetic::div_mod::lemma_div_is_ordered(smaller, larger, unit);
    vstd::arithmetic::div_mod::lemma_fundamental_div_mod(smaller, unit);
    vstd::arithmetic::div_mod::lemma_fundamental_div_mod(larger, unit);
}

/// The nanosecond duration of a tick count is within half a nanosecond of the
/// exact quotient.
pub proof fn law_tick_duration_is_nearest(ticks: int, rate: int)
    requires
        0 <= ticks,
        0 < rate,
    ensures
        -rate <= 2 * (nanos_of_ticks(ticks, rate) * rate - ticks * NANOS_PER_SECOND) <= rate,
        nanos_of_ticks(ticks, rate) >= 0,
{
    law_nearest_is_within_half(ticks * NANOS_PER_SECOND, rate);
}

/// Later positions on the RTP timeline never map to earlier durations.
pub proof fn law_tick_duration_is_monotonic(earlier: int, later: int, rate: int)
    requires
        0 <= earlier <= later,
        0 < rate,
    ensures
        nanos_of_ticks(earlier, rate) <= nanos_of_ticks(later, rate),
{
    law_nearest_is_monotonic(earlier * NANOS_PER_SECOND, later * NANOS_PER_SECOND, rate);
}

/// The wire carries positions modulo 65536.
pub proof fn law_wire_numbers_repeat_every_65536(position: int, number: u16)
    ensures
        wire_sequence(position) == number <==> (position - number) % 0x1_0000 == 0,
{
}

/// Exactly one position within 32768 behind and 32767 ahead of a reference
/// carries a given number, and that is where the number unfolds to.
pub proof fn law_unfolding_finds_the_only_near_position(number: u16, reference: int, slot: int)
    ensures
        extended_sequence(number, reference) == slot <==> {
            &&& (slot - number) % 0x1_0000 == 0
            &&& reference - 0x8000 <= slot <= reference + 0x7fff
        },
{
    lemma_extended_sequence(number, reference);
}

/// The way forward from a timestamp to another is the number of ticks, less
/// than 2^32, that has to be added to the one to give the other modulo 2^32.
pub proof fn law_advance_leads_to_the_timestamp(from: u32, to: u32, ticks: int)
    ensures
        timestamp_advance(from, to) == ticks <==> {
            &&& 0 <= ticks < 0x1_0000_0000
            &&& (from + ticks - to) % 0x1_0000_0000 == 0
        },
{
}

/// The distance to a timestamp is the signed number of ticks, less than 2^31
/// either way, that leads to it, so that the way back is as long as the way
/// there.
pub proof fn law_distance_is_signed(from: u32, to: u32, ticks: int)
    ensures
        timestamp_distance(from, to) == ticks <==> {
            &&& -0x8000_0000 <= ticks < 0x8000_0000
            &&& (from + ticks - to) % 0x1_0000_0000 == 0
        },
        timestamp_distance(from, to) != -0x8000_0000 ==> timestamp_distance(to, from)
            == -timestamp_distance(from, to),
{
}

/// Moving a timestamp forward adds the ticks modulo 2^32.
pub proof fn law_moved_timestamp_is_ticks_ahead(timestamp: u32, ticks: u32)
    ensures
        timestamp_advance(timestamp, timestamp_after(timestamp, ticks)) == ticks,
        (timestamp_after(timestamp, ticks) - timestamp - ticks) % 0x1_0000_0000 == 0,
{
}

/// Whether a number is `amount / unit` rounded to nearest, ties to even.
pub open spec fn is_nearest(number: int, amount: int, unit: int) -> bool {
    let error = 2 * (number * unit - amount);
    &&& -unit <= error <= unit
    &&& error == unit || error == -unit ==> number % 2 == 0
}

/// There is one nearest number, ties to even, and rounding finds it.
pub proof fn law_rounding_finds_the_nearest(amount: int, unit: int, number: int)
    requires
        0 < unit,
    ensures
        nearest(amount, unit) == number <==> is_nearest(number, amount, unit),
{
    let below = amount / unit;
    let rest = amount % unit;
    let found = nearest(amount, unit);
    vstd::arithmetic::div_mod::lemma_fundamental_div_mod(amount, unit);
    assert(below * unit == unit * below) by (nonlinear_arith);
    assert((below + 1) * unit == unit * below + unit) by (nonlinear_arith);
    assert(is_nearest(found, amount, unit));
    if is_nearest(number, amount, unit) && number != found {
        let gap = number - found;
        assert(number * unit - found * unit == gap * unit) by (nonlinear_arith)
            requires
                gap == number - found,
        ;
        assert(gap == 1 || gap == -1) by (nonlinear_arith)
            requires
                -unit <= gap * unit <= unit,
                gap != 0,
                unit > 0,
        ;
        assert(1 * unit == unit && (-1) * unit == -unit);
    }
}

/// A duration in ticks is the nearest number of ticks; half a tick counts as a
/// whole one.
pub proof fn law_duration_is_rounded_to_ticks(nanos: int, rate: int, ticks: int)
    ensures
        ticks_of_nanos(nanos, rate) == ticks <==> -1_000_000_000 < 2 * (ticks * 1_000_000_000
            - nanos * rate) <= 1_000_000_000,
{
    let twice = 2 * (nanos * rate) + 1_000_000_000;
    assert(ticks_of_nanos(nanos, rate) == twice / 2_000_000_000);
}

/// A number of ticks lasts as many seconds as the clock rate fits into it, to
/// the nearest nanosecond.
pub proof fn law_ticks_last_their_share_of_a_second(ticks: int, rate: int, nanos: int)
    requires
        0 < rate,
    ensures
        nanos_of_ticks(ticks, rate) == nanos <==> is_nearest(nanos, ticks * 1_000_000_000, rate),
        nanos_of_ticks(rate, rate) == 1_000_000_000,
{
    law_rounding_finds_the_nearest(ticks * 1_000_000_000, rate, nanos);
    vstd::arithmetic::mul::lemma_mul_is_commutative(rate, 1_000_000_000);
    law_nearest_keeps_whole_numbers(1_000_000_000, rate);
}

/// Unfolding a number gives the only position near the reference that carries it,
/// and wrapping the position gives the number back.
pub proof fn law_unfolded_number_wraps_to_itself(
    number: u16,
    reference: i64,
    position: i64,
    wrapped: u16,
)
    requires
        call_ensures(extend_seq, (number, reference), position),
        call_ensures(wire_sequence_number, (position,), wrapped),
    ensures
        wrapped == number,
        (position - number) % 0x1_0000 == 0,
        reference - 0x8000 <= position <= reference + 0x7fff,
{
}

/// The low 16 bits of a position are what is left of it modulo 65536.
pub proof fn law_wire_number_is_the_remainder(position: i64, number: u16)
    requires
        call_ensures(wire_sequence_number, (position,), number),
    ensures
        (position - number) % 0x1_0000 == 0,
{
}

/// The signed way between two timestamps leads from the one to the other and is
/// less than 2^31 ticks long either way.
pub proof fn law_delta_leads_to_the_timestamp(from: u32, to: u32, delta: i64)
    requires
        call_ensures(signed_timestamp_delta, (from, to), delta),
    ensures
        -0x8000_0000 <= delta < 0x8000_0000,
        (from + delta - to) % 0x1_0000_0000 == 0,
{
    law_distance_is_signed(from, to, delta as int);
}

/// Quotients and durations are rounded to the nearest whole number.
pub proof fn law_conversions_round_to_nearest(
    amount: u128,
    unit: u32,
    quotient: u128,
    ticks: u32,
    rate: u32,
    lasting: u64,
    nanos: u64,
    counted: u128,
)
    requires
        unit > 0,
        rate > 0,
        call_ensures(nearest_quotient, (amount, unit), quotient),
        call_ensures(ticks_to_nanos, (ticks, rate), lasting),
        call_ensures(nanos_to_ticks, (nanos, rate), counted),
    ensures
        is_nearest(quotient as int, amount as int, unit as int),
        is_nearest(lasting as int, ticks * 1_000_000_000, rate as int),
        -1_000_000_000 < 2 * (counted * 1_000_000_000 - nanos * rate) <= 1_000_000_000,
{
    law_rounding_finds_the_nearest(amount as int, unit as int, quotient as int);
    law_ticks_last_their_share_of_a_second(ticks as int, rate as int, lasting as int);
    law_duration_is_rounded_to_ticks(nanos as int, rate as int, counted as int);
}

} // verus!
