//! Decimal numbers written as digits.

use vstd::prelude::*;
use super::grammar::is_digit;

verus! {

/// The number that a digit stands for; 0 for any other character.
pub open spec fn digit_value(c: char) -> nat {
    if is_digit(c) {
        (c as nat - '0' as nat) as nat
    } else {
        0
    }
}

/// The number that a group of digits writes in base ten. Leading zeros do
/// not change it, and the empty group writes 0.
pub open spec fn decimal_value(digits: Seq<char>) -> nat
    decreases digits.len(),
{
    if digits.len() == 0 {
        0
    } else {
        decimal_value(digits.drop_last()) * 10 + digit_value(digits.last())
    }
}

/// The number that a group of digits writes, if it fits in 32 bits.
pub open spec fn number_of(digits: Seq<char>) -> Option<u32> {
    if decimal_value(digits) <= u32::MAX {
        Some(decimal_value(digits) as u32)
    } else {
        None
    }
}

/// A group of digits writes at least what any of its prefixes writes.
pub proof fn lemma_decimal_value_grows(digits: Seq<char>, len: int)
    requires
        0 <= len <= digits.len(),
    ensures
        decimal_value(digits.take(len)) <= decimal_value(digits),
    decreases digits.len() - len,
{
    if len < digits.len() {
        lemma_decimal_value_grows(digits, len + 1);
        assert(digits.take(len + 1).drop_last() =~= digits.take(len));
    } else {
        assert(digits.take(len) =~= digits);
    }
}

fn digit_of(c: char) -> (value: u32)
    requires
        is_digit(c),
    ensures
        value == digit_value(c),
        value <= 9,
{
    (c as u32) - ('0' as u32)
}

/// Reads the characters of `s` from `from` up to `to` as a number in base
/// ten; `None` where the number is beyond `u32::MAX`.
pub(crate) fn read_number(s: &[char], from: usize, to: usize) -> (number: Option<u32>)
    requires
        from <= to <= s.len(),
        forall|i: int| from <= i < to ==> is_digit(#[trigger] s@[i]),
    ensures
        number == number_of(s@.subrange(from as int, to as int)),
{
    let ghost digits = s@.subrange(from as int, to as int);
    let mut value: u32 = 0;
    let mut i: usize = from;
    while i < to
        invariant
            from <= i <= to <= s.len(),
            digits == s@.subrange(from as int, to as int),
            forall|k: int| from <= k < to ==> is_digit(#[trigger] s@[k]),
            value == decimal_value(digits.take(i - from)),
        decreases to - i,
    {
        let digit = digit_of(s[i]);
        let wide: u64 = (value as u64) * 10 + (digit as u64);
        proof {
            assert(digits.take(i + 1 - from).drop_last() =~= digits.take(i - from));
            assert(digits.take(i + 1 - from).last() == s@[i as int]);
            assert(wide == decimal_value(digits.take(i + 1 - from)));
        }
        if wide > u32::MAX as u64 {
            proof {
                lemma_decimal_value_grows(digits, i + 1 - from);
            }
            return None;
        }
        value = wide as u32;
        i += 1;
    }
    proof {
        assert(digits.take(to - from) =~= digits);
    }
    Some(value)
}

} // verus!
