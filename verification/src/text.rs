//! Text that configuration checks read and error messages are made of.

use vstd::prelude::*;

verus! {

/// Decimal digit as a character.
pub open spec fn digit(value: nat) -> char {
    (('0' as int) + value) as char
}

/// Decimal notation of a number, without leading zeros.
pub open spec fn decimal(value: nat) -> Seq<char>
    decreases value,
{
    if value < 10 {
        seq![digit(value)]
    } else {
        decimal(value / 10).push(digit(value % 10))
    }
}

/// Notation of a number of thousandths in whole units, with as many decimals
/// as it needs and no decimal point when it needs none.
pub open spec fn thousandths(value: nat) -> Seq<char> {
    let whole = decimal(value / 1000);
    let rest = value % 1000;
    if rest == 0 {
        whole
    } else if rest % 100 == 0 {
        whole.push('.').push(digit(rest / 100))
    } else if rest % 10 == 0 {
        whole.push('.').push(digit(rest / 100)).push(digit(rest / 10 % 10))
    } else {
        whole.push('.').push(digit(rest / 100)).push(digit(rest / 10 % 10)).push(digit(rest % 10))
    }
}

/// ASCII lower case of a character.
pub open spec fn lower_char(c: char) -> char {
    if 'A' <= c <= 'Z' {
        ((c as int) + 32) as char
    } else {
        c
    }
}

/// ASCII lower case of a text; other characters stay as they are.
pub open spec fn lower(text: Seq<char>) -> Seq<char> {
    text.map_values(|c: char| lower_char(c))
}

/// `str::to_ascii_lowercase` of the standard library: a copy of the text in
/// which the letters `A` to `Z` are replaced by `a` to `z` and every other
/// character is kept.
pub assume_specification[ str::to_ascii_lowercase ](given: &str) -> (lowered: String)
    ensures
        lowered@ == lower(given@),
;

/// `str::eq_ignore_ascii_case` of the standard library: whether the two texts
/// have the same ASCII lower case.
pub assume_specification[ str::eq_ignore_ascii_case ](given: &str, other: &str) -> (same: bool)
    ensures
        same == (lower(given@) == lower(other@)),
;

/// Different numbers have different decimal notations.
pub proof fn lemma_decimal_is_injective(one: nat, other: nat)
    ensures
        decimal(one) == decimal(other) ==> one == other,
    decreases one,
{
    if decimal(one) == decimal(other) {
        lemma_decimal_len(one);
        lemma_decimal_len(other);
        assert(decimal(one).last() == digit(one % 10));
        assert(decimal(other).last() == digit(other % 10));
        if one >= 10 {
            lemma_decimal_is_injective(one / 10, other / 10);
            assert(decimal(one).drop_last() =~= decimal(one / 10));
            assert(decimal(other).drop_last() =~= decimal(other / 10));
        }
    }
}

/// A decimal notation has at least one digit, and exactly one for a digit.
proof fn lemma_decimal_len(value: nat)
    ensures
        decimal(value).len() >= 1,
        decimal(value).len() == 1 <==> value < 10,
    decreases value,
{
    if value >= 10 {
        lemma_decimal_len(value / 10);
    }
}

/// Append one decimal digit.
fn push_digit(text: &mut String, value: u64)
    requires
        value < 10,
    ensures
        final(text)@ == old(text)@.push(digit(value as nat)),
{
    proof {
        reveal_strlit("0");
        reveal_strlit("1");
        reveal_strlit("2");
        reveal_strlit("3");
        reveal_strlit("4");
        reveal_strlit("5");
        reveal_strlit("6");
        reveal_strlit("7");
        reveal_strlit("8");
        reveal_strlit("9");
    }
    let symbol = match value {
        0 => "0",
        1 => "1",
        2 => "2",
        3 => "3",
        4 => "4",
        5 => "5",
        6 => "6",
        7 => "7",
        8 => "8",
        _ => "9",
    };
    assert(symbol@ =~= seq![digit(value as nat)]);
    text.append(symbol);
    assert(text@ =~= old(text)@.push(digit(value as nat)));
}

/// Append a number in decimal notation.
pub fn push_decimal(text: &mut String, value: u64)
    ensures
        final(text)@ == old(text)@ + decimal(value as nat),
    decreases value,
{
    if value >= 10 {
        push_decimal(text, value / 10);
    }
    push_digit(text, value % 10);
    assert(text@ =~= old(text)@ + decimal(value as nat));
}

/// Append a number of thousandths in whole units.
pub fn push_thousandths(text: &mut String, value: u64)
    ensures
        final(text)@ == old(text)@ + thousandths(value as nat),
{
    push_decimal(text, value / 1000);
    let rest: u64 = value % 1000;
    if rest != 0 {
        proof {
            reveal_strlit(".");
        }
        text.append(".");
        push_digit(text, rest / 100);
        if rest % 100 != 0 {
            push_digit(text, rest / 10 % 10);
            if rest % 10 != 0 {
                push_digit(text, rest % 10);
            }
        }
    }
    assert(text@ =~= old(text)@ + thousandths(value as nat));
}

/// Value of a decimal digit.
pub open spec fn digit_value(symbol: char) -> int {
    symbol as int - '0' as int
}

/// Number that a text of decimal digits is read as, from the left.
pub open spec fn read_number(digits: Seq<char>) -> int
    decreases digits.len(),
{
    if digits.len() == 0 {
        0
    } else {
        10 * read_number(digits.drop_last()) + digit_value(digits.last())
    }
}

/// Whether a text is a number in decimal notation: digits only, at least one, and
/// no zero in front of others.
pub open spec fn is_number(digits: Seq<char>) -> bool {
    &&& digits.len() > 0
    &&& forall|i: int| 0 <= i < digits.len() ==> '0' <= #[trigger] digits[i] <= '9'
    &&& digits[0] == '0' ==> digits.len() == 1
}

/// The decimal notation of a number is a number that reads as its value.
pub proof fn law_decimal_reads_as_its_value(value: nat)
    ensures
        is_number(decimal(value)),
        read_number(decimal(value)) == value,
    decreases value,
{
    reveal_with_fuel(read_number, 2);
    if value < 10 {
        assert(decimal(value).drop_last() =~= Seq::empty());
    } else {
        law_decimal_reads_as_its_value(value / 10);
        let front = decimal(value / 10);
        assert(decimal(value).drop_last() =~= front);
        assert(decimal(value).last() == digit(value % 10));
        if front[0] == '0' {
            assert(front.drop_last() =~= Seq::empty());
            assert(front.last() == '0');
            assert(read_number(front) == 0);
            assert(false);
        }
    }
}

/// Appending a number leaves the text in front of it and writes the number in
/// decimal notation.
pub proof fn law_appended_number_reads_as_its_value(text: &mut String, value: u64)
    requires
        call_ensures(push_decimal, (text, value), ()),
    ensures
        old(text)@.is_prefix_of(final(text)@),
        is_number(final(text)@.skip(old(text)@.len() as int)),
        read_number(final(text)@.skip(old(text)@.len() as int)) == value,
{
    law_decimal_reads_as_its_value(value as nat);
    assert(final(text)@.skip(old(text)@.len() as int) =~= decimal(value as nat));
}

/// A number of thousandths is written as its whole units and, behind a point, as
/// many decimals as it takes: none for whole units, and no zero at the end.
pub proof fn law_appended_thousandths_read_as_their_value(text: &mut String, value: u64)
    requires
        call_ensures(push_thousandths, (text, value), ()),
    ensures
        exists|units: Seq<char>, decimals: Seq<char>|
            {
                &&& #[trigger] is_written(final(text)@, old(text)@, units, decimals)
                &&& is_number(units)
                &&& forall|i: int|
                    0 <= i < decimals.len() ==> '0' <= #[trigger] decimals[i] <= '9'
                &&& decimals.len() <= 3
                &&& decimals.len() > 0 ==> decimals.last() != '0'
                &&& value == 1000 * read_number(units) + read_number(decimals) * (
                if decimals.len() == 1 {
                    100int
                } else if decimals.len() == 2 {
                    10
                } else {
                    1
                })
            },
{
    reveal_with_fuel(read_number, 4);
    let units = decimal((value / 1000) as nat);
    law_decimal_reads_as_its_value((value / 1000) as nat);
    let rest = (value % 1000) as nat;
    let decimals = if rest == 0 {
        Seq::<char>::empty()
    } else if rest % 100 == 0 {
        seq![digit(rest / 100)]
    } else if rest % 10 == 0 {
        seq![digit(rest / 100), digit(rest / 10 % 10)]
    } else {
        seq![digit(rest / 100), digit(rest / 10 % 10), digit(rest % 10)]
    };
    assert(thousandths(value as nat) =~= if decimals.len() == 0 {
        units
    } else {
        units + seq!['.'] + decimals
    });
    if decimals.len() > 0 {
        assert(decimals.drop_last().len() == decimals.len() - 1);
        if decimals.len() == 2 {
            assert(decimals.drop_last() =~= seq![decimals[0]]);
            assert(seq![decimals[0]].drop_last() =~= Seq::empty());
        } else if decimals.len() == 3 {
            assert(decimals.drop_last() =~= seq![decimals[0], decimals[1]]);
            assert(seq![decimals[0], decimals[1]].drop_last() =~= seq![decimals[0]]);
            assert(seq![decimals[0]].drop_last() =~= Seq::empty());
        } else {
            assert(decimals.drop_last() =~= Seq::empty());
        }
    }
    assert(is_written(final(text)@, old(text)@, units, decimals)) by {
        assert(final(text)@ =~= old(text)@ + if decimals.len() == 0 {
            units
        } else {
            units + seq!['.'] + decimals
        });
    }
}

/// Whether a text is an earlier one followed by whole units and decimals, with a
/// point between them if there are decimals.
pub open spec fn is_written(
    text: Seq<char>,
    earlier: Seq<char>,
    units: Seq<char>,
    decimals: Seq<char>,
) -> bool {
    text == earlier + if decimals.len() == 0 {
        units
    } else {
        units + seq!['.'] + decimals
    }
}

/// Lower case replaces the letters `A` to `Z` by the letters `a` to `z` in the same
/// order and leaves everything else where it is.
pub proof fn law_lower_case_replaces_capital_letters(text: Seq<char>, i: int)
    requires
        0 <= i < text.len(),
    ensures
        lower(text).len() == text.len(),
        'A' <= text[i] <= 'Z' ==> lower(text)[i] as int - 'a' as int == text[i] as int
            - 'A' as int,
        !('A' <= text[i] <= 'Z') ==> lower(text)[i] == text[i],
        lower(lower(text)) == lower(text),
{
    assert(lower(lower(text)) =~= lower(text));
}

} // verus!
