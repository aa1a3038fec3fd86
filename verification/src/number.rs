//! Reading a transaction id: an unsigned decimal number of 32 bits.

use vstd::prelude::*;
use crate::text::chars_of;

verus! {

/// Whether `c` is one of the ten decimal digits.
pub open spec fn is_digit(c: char) -> bool {
    '0' <= c && c <= '9'
}

/// The number that the digit `c` stands for.
pub open spec fn digit_value(c: char) -> nat {
    (c as u32 - '0' as u32) as nat
}

/// Whether `s` holds decimal digits only.
pub open spec fn all_digits(s: Seq<char>) -> bool {
    forall|i: int| 0 <= i < s.len() ==> is_digit(#[trigger] s[i])
}

/// The number that a sequence of decimal digits writes, the most
/// significant digit first.
pub open spec fn decimal_value(s: Seq<char>) -> nat
    decreases s.len(),
{
    if s.len() == 0 {
        0
    } else {
        10 * decimal_value(s.drop_last()) + digit_value(s.last())
    }
}

/// `s` without the plus sign that may stand in front of a number.
pub open spec fn unsigned_part(s: Seq<char>) -> Seq<char> {
    if s.len() > 0 && s[0] == '+' {
        s.drop_first()
    } else {
        s
    }
}

/// The transaction id that `s` writes: an optional plus sign, then one or
/// more decimal digits whose number fits in 32 bits. Anything else is no
/// transaction id.
pub open spec fn spec_tx_id(s: Seq<char>) -> Option<u32> {
    let digits = unsigned_part(s);
    if digits.len() > 0 && all_digits(digits) && decimal_value(digits) <= u32::MAX {
        Some(decimal_value(digits) as u32)
    } else {
        None
    }
}

/// A number never gets smaller when more digits are written behind it.
pub proof fn lemma_decimal_value_grows(s: Seq<char>, k: int)
    requires
        0 <= k <= s.len(),
    ensures
        decimal_value(s.take(k)) <= decimal_value(s),
    decreases s.len() - k,
{
    if k == s.len() {
        assert(s.take(k) =~= s);
    } else {
        lemma_decimal_value_grows(s, k + 1);
        assert(s.take(k + 1).drop_last() =~= s.take(k));
    }
}

/// Reads a transaction id.
pub fn parse_tx_id(text: &str) -> (id: Option<u32>)
    ensures
        id == spec_tx_id(text@),
{
    let chars = chars_of(text);
    let n: usize = chars.len();
    let first: usize = if n > 0 && chars[0] == '+' {
        1
    } else {
        0
    };
    let ghost digits = unsigned_part(text@);
    proof {
        assert(digits =~= text@.skip(first as int));
    }
    if first == n {
        return None;
    }
    let mut value: u64 = 0;
    let mut i: usize = first;
    while i < n
        invariant
            chars@ == text@,
            n == text@.len(),
            first <= i <= n,
            digits == text@.skip(first as int),
            digits == unsigned_part(text@),
            all_digits(digits.take(i - first)),
            value == decimal_value(digits.take(i - first)),
            value <= u32::MAX,
        decreases n - i,
    {
        let c: char = chars[i];
        let ghost prefix = digits.take(i - first + 1);
        proof {
            assert(prefix.drop_last() =~= digits.take(i - first));
            assert(digits[i - first] == c);
            assert(prefix.last() == c);
            assert(decimal_value(prefix) == 10 * decimal_value(prefix.drop_last()) + digit_value(
                c,
            ));
        }
        if !(c >= '0' && c <= '9') {
            proof {
                assert(!is_digit(digits[i - first]));
            }
            return None;
        }
        let d: u64 = (c as u32 - '0' as u32) as u64;
        let next: u64 = 10 * value + d;
        if next > 0xffff_ffff {
            proof {
                lemma_decimal_value_grows(digits, i - first + 1);
            }
            return None;
        }
        proof {
            assert forall|j: int| 0 <= j < prefix.len() implies is_digit(#[trigger] prefix[j]) by {
                if j < i - first {
                    assert(prefix[j] == digits.take(i - first)[j]);
                }
            }
        }
        value = next;
        i = i + 1;
    }
    proof {
        assert(digits.take(n - first) =~= digits);
    }
    Some(value as u32)
}

} // verus!
