//! Bytes written as hexadecimal digits, two to a byte.

use vstd::prelude::*;
use vstd::string::*;
use crate::text::chars_of;

verus! {

/// The sixteen digits, in the order of their values.
pub open spec fn hex_digits() -> Seq<char> {
    "0123456789abcdef"@
}

/// The digit that writes a value under sixteen.
pub open spec fn hex_digit(v: int) -> char {
    hex_digits()[v]
}

/// The value of a hexadecimal digit, in either case.
pub open spec fn hex_value(c: char) -> Option<u8> {
    if '0' <= c && c <= '9' {
        Some((c as u32 - '0' as u32) as u8)
    } else if 'a' <= c && c <= 'f' {
        Some((c as u32 - 'a' as u32 + 10) as u8)
    } else if 'A' <= c && c <= 'F' {
        Some((c as u32 - 'A' as u32 + 10) as u8)
    } else {
        None
    }
}

/// The lower-case hexadecimal form of `bytes`: for each byte its high half,
/// then its low half.
pub open spec fn hex_encode(bytes: Seq<u8>) -> Seq<char> {
    Seq::new(
        2 * bytes.len(),
        |i: int|
            if i % 2 == 0 {
                hex_digit(bytes[i / 2] as int / 16)
            } else {
                hex_digit(bytes[i / 2] as int % 16)
            },
    )
}

/// Whether `text` is the hexadecimal form of some bytes: an even number of
/// hexadecimal digits.
pub open spec fn is_hex(text: Seq<char>) -> bool {
    text.len() % 2 == 0 && forall|i: int| 0 <= i < text.len() ==> hex_value(#[trigger] text[i]) is Some
}

/// The bytes that `text` writes, if it writes any.
pub open spec fn hex_decode(text: Seq<char>) -> Option<Seq<u8>> {
    if is_hex(text) {
        Some(
            Seq::new(
                text.len() / 2,
                |i: int| (16 * hex_value(text[2 * i])->0 + hex_value(text[2 * i + 1])->0) as u8,
            ),
        )
    } else {
        None
    }
}

/// The view of optional bytes.
pub open spec fn opt_bytes_view(o: Option<Vec<u8>>) -> Option<Seq<u8>> {
    match o {
        Some(v) => Some(v@),
        None => None,
    }
}

/// Each of the sixteen digits has its own place as its value.
proof fn lemma_hex_digit_value(v: int)
    requires
        0 <= v < 16,
    ensures
        hex_value(hex_digit(v)) == Some(v as u8),
{
    reveal_strlit("0123456789abcdef");
    let d = hex_digits();
    assert(d.len() == 16);
    assert(d[0] == '0' && d[1] == '1' && d[2] == '2' && d[3] == '3');
    assert(d[4] == '4' && d[5] == '5' && d[6] == '6' && d[7] == '7');
    assert(d[8] == '8' && d[9] == '9' && d[10] == 'a' && d[11] == 'b');
    assert(d[12] == 'c' && d[13] == 'd' && d[14] == 'e' && d[15] == 'f');
}

/// Writing bytes in hexadecimal and reading them back gives the same bytes.
pub proof fn lemma_hex_round_trip(bytes: Seq<u8>)
    ensures
        hex_decode(hex_encode(bytes)) == Some(bytes),
{
    let text = hex_encode(bytes);
    assert forall|i: int| 0 <= i < text.len() implies hex_value(#[trigger] text[i]) is Some by {
        let b = bytes[i / 2] as int;
        if i % 2 == 0 {
            lemma_hex_digit_value(b / 16);
        } else {
            lemma_hex_digit_value(b % 16);
        }
    }
    assert(is_hex(text));
    let back = hex_decode(text)->0;
    assert forall|i: int| 0 <= i < bytes.len() implies back[i] == bytes[i] by {
        let b = bytes[i] as int;
        lemma_hex_digit_value(b / 16);
        lemma_hex_digit_value(b % 16);
        assert((2 * i) / 2 == i && (2 * i) % 2 == 0);
        assert((2 * i + 1) / 2 == i && (2 * i + 1) % 2 == 1);
        assert(text[2 * i] == hex_digit(b / 16));
        assert(text[2 * i + 1] == hex_digit(b % 16));
        assert(16 * (b / 16) + b % 16 == b);
    }
    assert(back =~= bytes);
}

/// Writes `bytes` in lower-case hexadecimal.
pub fn to_hex(bytes: &Vec<u8>) -> (text: String)
    ensures
        text@ == hex_encode(bytes@),
{
    let digits = "0123456789abcdef";
    proof {
        reveal_strlit("0123456789abcdef");
    }
    let mut text = String::new();
    let mut i: usize = 0;
    while i < bytes.len()
        invariant
            i <= bytes.len(),
            digits@ == hex_digits(),
            digits@.len() == 16,
            text@.len() == 2 * i,
            forall|j: int| 0 <= j < 2 * i ==> text@[j] == hex_encode(bytes@)[j],
        decreases bytes.len() - i,
    {
        let high: usize = (bytes[i] / 16) as usize;
        let low: usize = (bytes[i] % 16) as usize;
        let ghost before = text@;
        text.append(digits.substring_char(high, high + 1));
        text.append(digits.substring_char(low, low + 1));
        proof {
            assert(text@ =~= before.push(hex_digit(high as int)).push(hex_digit(low as int)));
            assert((2 * i) / 2 == i && (2 * i) % 2 == 0);
            assert((2 * i + 1) / 2 == i && (2 * i + 1) % 2 == 1);
        }
        i = i + 1;
    }
    proof {
        assert(text@ =~= hex_encode(bytes@));
    }
    text
}

/// The value of a hexadecimal digit.
pub fn digit_of(c: char) -> (v: Option<u8>)
    ensures
        v == hex_value(c),
{
    if c >= '0' && c <= '9' {
        Some((c as u32 - '0' as u32) as u8)
    } else if c >= 'a' && c <= 'f' {
        Some((c as u32 - 'a' as u32 + 10) as u8)
    } else if c >= 'A' && c <= 'F' {
        Some((c as u32 - 'A' as u32 + 10) as u8)
    } else {
        None
    }
}

/// Reads the bytes that `text` writes in hexadecimal.
pub fn from_hex(text: &str) -> (bytes: Option<Vec<u8>>)
    ensures
        opt_bytes_view(bytes) == hex_decode(text@),
{
    let chars = chars_of(text);
    let n: usize = chars.len();
    let mut bytes: Vec<u8> = Vec::new();
    let mut i: usize = 0;
    while i < n
        invariant
            chars@ == text@,
            n == text@.len(),
            i <= n,
            i % 2 == 0,
            bytes@.len() == i / 2,
            forall|j: int| 0 <= j < i ==> hex_value(#[trigger] text@[j]) is Some,
            forall|j: int|
                0 <= j < i / 2 ==> bytes@[j] == (16 * hex_value(text@[2 * j])->0 + hex_value(
                    text@[2 * j + 1],
                )->0) as u8,
        decreases n - i,
    {
        if n - i < 2 {
            proof {
                assert(n % 2 == 1);
            }
            return None;
        }
        let high = digit_of(chars[i]);
        let low = digit_of(chars[i + 1]);
        match (high, low) {
            (Some(h), Some(l)) => {
                bytes.push(16 * h + l);
            },
            _ => {
                proof {
                    assert(hex_value(text@[i as int]) is None || hex_value(text@[i + 1]) is None);
                }
                return None;
            },
        }
        i = i + 2;
    }
    proof {
        assert(is_hex(text@));
        assert(bytes@ =~= hex_decode(text@)->0);
    }
    Some(bytes)
}

} // verus!
