//! Numbers can be read back from the text that they are rendered as.
use vstd::prelude::*;

use crate::text::{append_decimal, append_hex64, decimal, hex64, hex_digits, optional_decimal};

verus! {

/// The value of a digit, decimal or hexadecimal.
pub open spec fn digit_value(digit: char) -> int {
    if digit <= '9' {
        digit as int - '0' as int
    } else {
        10 + (digit as int - 'a' as int)
    }
}

/// The number that digits spell in a base, the most significant digit first.
pub open spec fn spelled(digits: Seq<char>, base: int) -> int
    decreases digits.len(),
{
    if digits.len() == 0 {
        0
    } else {
        base * spelled(digits.drop_last(), base) + digit_value(digits.last())
    }
}

/// A decimal number consists of decimal digits, does not begin with a needless zero, and
/// spells the number.
pub proof fn law_decimal_spells_the_number(value: nat)
    ensures
        decimal(value).len() > 0,
        forall|i: int| 0 <= i < decimal(value).len() ==> '0' <= #[trigger] decimal(value)[i] <= '9',
        value > 0 ==> decimal(value)[0] != '0',
        spelled(decimal(value), 10) == value,
    decreases value,
{
    let digits = decimal(value);
    if value >= 10 {
        law_decimal_spells_the_number(value / 10);
        assert(digits.drop_last() =~= decimal(value / 10));
        assert forall|i: int| 0 <= i < digits.len() implies '0' <= #[trigger] digits[i]
            <= '9' by {
            if i < digits.len() - 1 {
                assert(digits[i] == decimal(value / 10)[i]);
            }
        }
    } else {
        assert(digits.drop_last() =~= Seq::<char>::empty());
        assert(spelled(digits.drop_last(), 10) == 0);
    }
}

proof fn lemma_hex_digits(value: nat, width: nat)
    ensures
        hex_digits(value, width).len() == width,
        forall|i: int|
            0 <= i < width ==> ('0' <= #[trigger] hex_digits(value, width)[i] <= '9') || ('a'
                <= hex_digits(value, width)[i] <= 'f'),
    decreases width,
{
    if width > 0 {
        let digits = hex_digits(value, width);
        lemma_hex_digits(value / 16, (width - 1) as nat);
        assert forall|i: int| 0 <= i < width implies ('0' <= #[trigger] digits[i] <= '9') || ('a'
            <= digits[i] <= 'f') by {
            if i < width - 1 {
                assert(digits[i] == hex_digits(value / 16, (width - 1) as nat)[i]);
            }
        }
    }
}

/// What the digits of a number that they suffice for spell.
proof fn lemma_hex_spelled(value: nat, width: nat, bound: nat)
    requires
        value < bound,
        bound == power_of_sixteen(width),
    ensures
        spelled(hex_digits(value, width), 16) == value,
    decreases width,
{
    if width > 0 {
        let digits = hex_digits(value, width);
        lemma_hex_spelled(value / 16, (width - 1) as nat, power_of_sixteen((width - 1) as nat));
        assert(digits.drop_last() =~= hex_digits(value / 16, (width - 1) as nat));
    }
}

spec fn power_of_sixteen(width: nat) -> nat
    decreases width,
{
    if width == 0 {
        1
    } else {
        16 * power_of_sixteen((width - 1) as nat)
    }
}

/// A checksum is rendered as `0x` and sixteen hexadecimal digits that spell it.
pub proof fn law_hexadecimal_spells_the_number(value: u64)
    ensures
        hex64(value).len() == 18,
        hex64(value)[0] == '0' && hex64(value)[1] == 'x',
        forall|i: int|
            2 <= i < 18 ==> ('0' <= #[trigger] hex64(value)[i] <= '9') || ('a' <= hex64(value)[i]
                <= 'f'),
        spelled(hex64(value).subrange(2, 18), 16) == value,
{
    reveal_strlit("0x");
    reveal_with_fuel(power_of_sixteen, 17);
    lemma_hex_digits(value as nat, 16);
    lemma_hex_spelled(value as nat, 16, power_of_sixteen(16));
    assert(hex64(value).subrange(2, 18) =~= hex_digits(value as nat, 16));
    assert forall|i: int| 2 <= i < 18 implies ('0' <= #[trigger] hex64(value)[i] <= '9') || ('a'
        <= hex64(value)[i] <= 'f') by {
        assert(hex64(value)[i] == hex_digits(value as nat, 16)[i - 2]);
    }
}

/// What is appended to a text is the number, behind all that was there.
pub proof fn law_numbers_are_appended(text: &mut String, hex: &mut String, value: u64)
    requires
        call_ensures(append_decimal, (text, value), ()),
        call_ensures(append_hex64, (hex, value), ()),
    ensures
        final(text)@.len() > old(text)@.len(),
        final(text)@.take(old(text)@.len() as int) == old(text)@,
        spelled(final(text)@.skip(old(text)@.len() as int), 10) == value,
        final(hex)@.len() == old(hex)@.len() + 18,
        final(hex)@.take(old(hex)@.len() as int) == old(hex)@,
        spelled(final(hex)@.skip(old(hex)@.len() as int + 2), 16) == value,
{
    law_decimal_spells_the_number(value as nat);
    law_hexadecimal_spells_the_number(value);
    assert(final(text)@.skip(old(text)@.len() as int) =~= decimal(value as nat));
    assert(final(hex)@.skip(old(hex)@.len() as int + 2) =~= hex64(value).subrange(2, 18));
    assert(final(text)@.take(old(text)@.len() as int) =~= old(text)@);
    assert(final(hex)@.take(old(hex)@.len() as int) =~= old(hex)@);
}

/// A number that may be missing is rendered so that it can be told apart from every other:
/// one that is missing from one that is there, and two that are there from each other.
pub proof fn law_optional_numbers_are_told_apart(left: Option<u64>, right: Option<u64>)
    requires
        optional_decimal(left) == optional_decimal(right),
    ensures
        left == right,
{
    reveal_strlit("None");
    reveal_strlit("Some(");
    reveal_strlit(")");
    let first = optional_decimal(left);
    let second = optional_decimal(right);
    match (left, right) {
        (Some(a), Some(b)) => {
            law_decimal_spells_the_number(a as nat);
            law_decimal_spells_the_number(b as nat);
            assert(first.subrange(5, first.len() - 1) =~= decimal(a as nat));
            assert(second.subrange(5, second.len() - 1) =~= decimal(b as nat));
        },
        (None, Some(_)) => {
            assert(first[0] == 'N');
            assert(second[0] == 'S');
        },
        (Some(_), None) => {
            assert(first[0] == 'S');
            assert(second[0] == 'N');
        },
        (None, None) => {},
    }
}

} // verus!
