//! Decimal digit runs and the numbers they write.

use super::chars::{all_in, CharClass};
use vstd::prelude::*;

verus! {

/// The value of the decimal digit `c`.
pub open spec fn digit_value(c: char) -> nat {
    (c as u32 - '0' as u32) as nat
}

/// The number that `digits` writes in base ten, most significant digit
/// first. Leading zeros do not change it; the empty run writes 0.
pub open spec fn decimal_value(digits: Seq<char>) -> nat
    decreases digits.len(),
{
    if digits.len() == 0 {
        0
    } else {
        10 * decimal_value(digits.drop_last()) + digit_value(digits.last())
    }
}

/// A longer digit run never writes a smaller number than its beginning.
pub proof fn lemma_decimal_value_grows(digits: Seq<char>, n: int)
    requires
        0 <= n <= digits.len(),
    ensures
        decimal_value(digits.take(n)) <= decimal_value(digits),
    decreases digits.len() - n,
{
    if n == digits.len() {
        assert(digits.take(n) =~= digits);
    } else {
        lemma_decimal_value_grows(digits.drop_last(), n);
        assert(digits.drop_last().take(n) =~= digits.take(n));
    }
}

/// The number that a run of digits writes, or `None` where a character is
/// no digit or the number does not fit in 64 bits.
pub fn value_of(digits: &[char]) -> (value: Option<u64>)
    ensures
        value == (if all_in(digits@, CharClass::Digit) && decimal_value(digits@) <= u64::MAX {
            Some(decimal_value(digits@) as u64)
        } else {
            None
        }),
{
    let mut value: u64 = 0;
    let mut i: usize = 0;
    while i < digits.len()
        invariant
            i <= digits@.len(),
            all_in(digits@.take(i as int), CharClass::Digit),
            value == decimal_value(digits@.take(i as int)),
        decreases digits@.len() - i,
    {
        let c = digits[i];
        if !CharClass::Digit.has(c) {
            return None;
        }
        let digit: u64 = (c as u32 - '0' as u32) as u64;
        proof {
            assert(digits@.take(i + 1).drop_last() =~= digits@.take(i as int));
            assert(digits@.take(i + 1).last() == c);
            lemma_decimal_value_grows(digits@, i + 1);
            assert forall|j: int| 0 <= j < i + 1 implies CharClass::Digit.contains(
                #[trigger] digits@.take(i + 1)[j],
            ) by {
                if j < i {
                    assert(digits@.take(i as int)[j] == digits@[j]);
                }
            }
        }
        if value > (u64::MAX - digit) / 10 {
            return None;
        }
        value = value * 10 + digit;
        i += 1;
    }
    assert(digits@.take(i as int) =~= digits@);
    Some(value)
}

} // verus!
