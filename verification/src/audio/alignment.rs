//! The smallest block that two frame sizes divide.

use vstd::prelude::*;

verus! {

/// Greatest common divisor by Euclid's algorithm.
pub open spec fn greatest_common_divisor(left: nat, right: nat) -> nat
    decreases right,
{
    if right == 0 {
        left
    } else {
        greatest_common_divisor(right, left % right)
    }
}

/// Least common multiple.
pub open spec fn common_multiple(left: nat, right: nat) -> nat {
    left / greatest_common_divisor(left, right) * right
}

/// The greatest common divisor divides both numbers and is a combination of
/// them.
proof fn lemma_divisor(left: nat, right: nat) -> (factors: (int, int))
    requires
        left > 0 || right > 0,
    ensures
        greatest_common_divisor(left, right) > 0,
        left % greatest_common_divisor(left, right) == 0,
        right % greatest_common_divisor(left, right) == 0,
        greatest_common_divisor(left, right) == left * factors.0 + right * factors.1,
    decreases right,
{
    if right == 0 {
        vstd::arithmetic::div_mod::lemma_fundamental_div_mod_converse(left as int, left as int, 1, 0);
        vstd::arithmetic::div_mod::lemma_fundamental_div_mod_converse(0, left as int, 0, 0);
        assert(left * 1 + right * 0 == left) by (nonlinear_arith);
        (1, 0)
    } else {
        let rest = left % right;
        let (u, v) = lemma_divisor(right, rest);
        let divisor = greatest_common_divisor(right, rest) as int;
        let quotient = (left / right) as int;
        vstd::arithmetic::div_mod::lemma_fundamental_div_mod(left as int, right as int);
        vstd::arithmetic::div_mod::lemma_fundamental_div_mod(right as int, divisor);
        vstd::arithmetic::div_mod::lemma_fundamental_div_mod(rest as int, divisor);
        let of_right = right as int / divisor;
        let of_rest = rest as int / divisor;
        assert(left == divisor * (of_right * quotient + of_rest)) by (nonlinear_arith)
            requires
                left == right * quotient + rest,
                right == divisor * of_right,
                rest == divisor * of_rest,
        ;
        vstd::arithmetic::div_mod::lemma_fundamental_div_mod_converse(
            left as int,
            divisor,
            of_right * quotient + of_rest,
            0,
        );
        assert(divisor == left * v + right * (u - quotient * v)) by (nonlinear_arith)
            requires
                divisor == right * u + rest * v,
                left == right * quotient + rest,
        ;
        (v, u - quotient * v)
    }
}

/// The least common multiple is a multiple of both numbers, and every common
/// multiple is a multiple of it.
pub proof fn law_common_multiple_is_least(left: nat, right: nat, multiple: nat)
    requires
        left > 0,
        right > 0,
    ensures
        common_multiple(left, right) > 0,
        common_multiple(left, right) % left == 0,
        common_multiple(left, right) % right == 0,
        multiple % left == 0 && multiple % right == 0 ==> multiple % common_multiple(left, right)
            == 0,
        multiple % left == 0 && multiple % right == 0 && multiple > 0 ==> common_multiple(
            left,
            right,
        ) <= multiple,
{
    let (u, v) = lemma_divisor(left, right);
    let divisor = greatest_common_divisor(left, right) as int;
    vstd::arithmetic::div_mod::lemma_fundamental_div_mod(left as int, divisor);
    vstd::arithmetic::div_mod::lemma_fundamental_div_mod(right as int, divisor);
    let of_left = left as int / divisor;
    let of_right = right as int / divisor;
    let least = common_multiple(left, right) as int;
    assert(least == of_left * right);
    assert(of_left > 0) by (nonlinear_arith)
        requires
            left == divisor * of_left,
            left > 0,
            divisor > 0,
    ;
    assert(least > 0) by (nonlinear_arith)
        requires
            least == of_left * right,
            of_left > 0,
            right > 0,
    ;
    assert(least == left * of_right) by (nonlinear_arith)
        requires
            least == of_left * right,
            left == divisor * of_left,
            right == divisor * of_right,
    ;
    vstd::arithmetic::div_mod::lemma_fundamental_div_mod_converse(least, left as int, of_right, 0);
    assert(least == right * of_left) by (nonlinear_arith)
        requires
            least == of_left * right,
    ;
    vstd::arithmetic::div_mod::lemma_fundamental_div_mod_converse(least, right as int, of_left, 0);
    if multiple % left == 0 && multiple % right == 0 {
        vstd::arithmetic::div_mod::lemma_fundamental_div_mod(multiple as int, left as int);
        vstd::arithmetic::div_mod::lemma_fundamental_div_mod(multiple as int, right as int);
        let x = multiple as int / left as int;
        let y = multiple as int / right as int;
        let factor = y * u + x * v;
        assert(multiple * divisor == left * right * factor) by (nonlinear_arith)
            requires
                divisor == left * u + right * v,
                multiple == left * x,
                multiple == right * y,
                factor == y * u + x * v,
        ;
        assert(divisor * (multiple - least * factor) == 0) by (nonlinear_arith)
            requires
                multiple * divisor == left * right * factor,
                left == divisor * of_left,
                least == of_left * right,
        ;
        assert(multiple == least * factor) by (nonlinear_arith)
            requires
                divisor * (multiple - least * factor) == 0,
                divisor > 0,
        ;
        vstd::arithmetic::div_mod::lemma_fundamental_div_mod_converse(multiple as int, least, factor, 0);
        if multiple > 0 {
            assert(least <= multiple) by (nonlinear_arith)
                requires
                    multiple == least * factor,
                    multiple > 0,
                    least > 0,
            ;
        }
    }
}

/// The least common multiple is no larger than the product.
pub proof fn lemma_common_multiple_bound(left: nat, right: nat)
    requires
        left > 0,
        right > 0,
    ensures
        common_multiple(left, right) <= left * right,
{
    vstd::arithmetic::mul::lemma_mul_strictly_positive(left as int, right as int);
    assert(left * right == right * left) by (nonlinear_arith);
    vstd::arithmetic::div_mod::lemma_fundamental_div_mod_converse((left * right) as int, left as int, right as int, 0);
    vstd::arithmetic::div_mod::lemma_fundamental_div_mod_converse((left * right) as int, right as int, left as int, 0);
    law_common_multiple_is_least(left, right, left * right);
}

/// Smallest number that both frame sizes divide.
pub fn least_common_multiple(left: usize, right: usize) -> (multiple: usize)
    requires
        left > 0 || right > 0,
        common_multiple(left as nat, right as nat) <= usize::MAX,
    ensures
        multiple == common_multiple(left as nat, right as nat),
{
    proof {
        lemma_divisor(left as nat, right as nat);
    }
    let mut a: usize = left;
    let mut b: usize = right;
    while b != 0
        invariant
            greatest_common_divisor(a as nat, b as nat) == greatest_common_divisor(
                left as nat,
                right as nat,
            ),
        decreases b,
    {
        let rest: usize = a % b;
        a = b;
        b = rest;
    }
    left / a * right
}

/// The multiple of two frame sizes is a whole number of both, and divides every
/// other number that is.
pub proof fn law_multiple_divides_every_common_multiple(
    left: usize,
    right: usize,
    multiple: usize,
    other: nat,
)
    requires
        left > 0,
        right > 0,
        call_ensures(least_common_multiple, (left, right), multiple),
        other % left as nat == 0,
        other % right as nat == 0,
    ensures
        multiple > 0,
        multiple % left == 0,
        multiple % right == 0,
        other % multiple as nat == 0,
        other > 0 ==> multiple <= other,
{
    law_common_multiple_is_least(left as nat, right as nat, other);
}

} // verus!
