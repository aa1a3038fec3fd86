//! Bytes written in base 58, alone or with a version in front and a
//! checksum behind.

use vstd::prelude::*;
use vstd::string::*;

verus! {

/// How many bytes of the double hash follow the data as its checksum.
pub const CHECKSUM_SIZE: usize = 4;

/// How many bytes a SHA-256 hash has.
pub const HASH_SIZE: usize = 32;

/// The SHA-256 hash of `data`, as `sha2::Sha256::digest` computes it.
pub uninterp spec fn sha256_digest(data: Seq<u8>) -> Seq<u8>;

/// The fifty-eight digits, in the order of their values.
pub open spec fn alphabet() -> Seq<char> {
    "123456789ABCDEFGHJKLMNPQRSTUVWXYZabcdefghijkmnopqrstuvwxyz"@
}

/// The number that `bytes` write, the most significant byte first.
pub open spec fn be_value(bytes: Seq<u8>) -> nat
    decreases bytes.len(),
{
    if bytes.len() == 0 {
        0
    } else {
        256 * be_value(bytes.drop_last()) + bytes.last() as nat
    }
}

/// The digits of `n` in base 58, the most significant first; none for zero.
pub open spec fn digits_of(n: nat) -> Seq<char>
    decreases n,
{
    if n == 0 {
        Seq::empty()
    } else {
        digits_of(n / 58).push(alphabet()[(n % 58) as int])
    }
}

/// How many zero bytes stand at the front of `bytes`.
pub open spec fn leading_zeros(bytes: Seq<u8>) -> nat
    decreases bytes.len(),
{
    if bytes.len() == 0 || bytes[0] != 0 {
        0
    } else {
        1 + leading_zeros(bytes.drop_first())
    }
}

/// `bytes` in base 58: the digit of zero once for each zero byte at the
/// front, then the digits of the number that the bytes write.
pub open spec fn base58(bytes: Seq<u8>) -> Seq<char> {
    Seq::new(leading_zeros(bytes), |i: int| '1') + digits_of(be_value(bytes))
}

/// The checksum of `payload`: the first bytes of the hash of its hash.
pub open spec fn checksum(payload: Seq<u8>) -> Seq<u8> {
    sha256_digest(sha256_digest(payload)).take(CHECKSUM_SIZE as int)
}

/// `data` in base 58 with `version` in front of it and the checksum of both
/// behind it.
pub open spec fn base58_check(data: Seq<u8>, version: Seq<u8>) -> Seq<char> {
    base58(version + data + checksum(version + data))
}

/// Digits given the least significant first, written as characters the most
/// significant first.
pub open spec fn reversed_digits(digits: Seq<u8>) -> Seq<char> {
    Seq::new(digits.len(), |i: int| alphabet()[digits[digits.len() - 1 - i] as int])
}

/// The number that the first bytes write is at most the number that all of
/// them write.
pub proof fn lemma_be_value_prefix(bytes: Seq<u8>, k: int)
    requires
        0 <= k <= bytes.len(),
    ensures
        be_value(bytes.take(k)) <= be_value(bytes),
    decreases bytes.len() - k,
{
    if k == bytes.len() {
        assert(bytes.take(k) =~= bytes);
    } else {
        lemma_be_value_prefix(bytes, k + 1);
        assert(bytes.take(k + 1).drop_last() =~= bytes.take(k));
    }
}

/// A number and its remainder fix its last digit and the digits before it.
pub proof fn lemma_digits_step(n: nat, quotient: nat, remainder: nat)
    requires
        n == 58 * quotient + remainder,
        remainder < 58,
        n > 0,
    ensures
        digits_of(n) == digits_of(quotient).push(alphabet()[remainder as int]),
        quotient < n,
{
    assert(n / 58 == quotient && n % 58 == remainder) by (nonlinear_arith)
        requires
            n == 58 * quotient + remainder,
            remainder < 58,
    ;
}

/// Calls `sha2::Sha256::digest`, which hashes the data in one go. The
/// contract names the hash, the same for the same data, and says that it
/// has 32 bytes.
#[verifier::external_body]
fn sha256(data: &Vec<u8>) -> (hash: Vec<u8>)
    ensures
        hash@ == sha256_digest(data@),
        hash@.len() == HASH_SIZE,
{
    <sha2::Sha256 as sha2::Digest>::digest(data.as_slice()).to_vec()
}

/// Whether the bytes write zero.
fn is_zero(num: &Vec<u8>) -> (r: bool)
    ensures
        r == (be_value(num@) == 0),
{
    let mut i: usize = 0;
    while i < num.len()
        invariant
            i <= num.len(),
            be_value(num@.take(i as int)) == 0,
        decreases num.len() - i,
    {
        proof {
            assert(num@.take(i + 1).drop_last() =~= num@.take(i as int));
        }
        if num[i] != 0 {
            proof {
                lemma_be_value_prefix(num@, i + 1);
            }
            return false;
        }
        i = i + 1;
    }
    proof {
        assert(num@.take(num@.len() as int) =~= num@);
    }
    true
}

/// Divides the number that the bytes write by 58, in place, and gives the
/// remainder.
fn divide_by_58(num: &mut Vec<u8>) -> (remainder: u8)
    ensures
        final(num)@.len() == old(num)@.len(),
        be_value(old(num)@) == 58 * be_value(final(num)@) + remainder,
        remainder < 58,
{
    let ghost before = num@;
    let mut rem: u32 = 0;
    let mut i: usize = 0;
    while i < num.len()
        invariant
            num@.len() == before.len(),
            i <= num.len(),
            rem < 58,
            be_value(before.take(i as int)) == 58 * be_value(num@.take(i as int)) + rem,
            forall|j: int| i <= j < num@.len() ==> num@[j] == before[j],
        decreases num.len() - i,
    {
        let ghost done = num@.take(i as int);
        let cur: u32 = rem * 256 + num[i] as u32;
        let quotient: u32 = cur / 58;
        assert(quotient <= 255);
        num.set(i, quotient as u8);
        proof {
            assert(num@.take(i as int) =~= done);
            assert(num@.take(i + 1).drop_last() =~= done);
            assert(before.take(i + 1).drop_last() =~= before.take(i as int));
            assert(cur == 58 * quotient + cur % 58);
            assert(be_value(before.take(i + 1)) == 58 * be_value(num@.take(i + 1)) + cur % 58)
                by (nonlinear_arith)
                requires
                    be_value(before.take(i + 1)) == 256 * be_value(before.take(i as int))
                        + before[i as int],
                    be_value(num@.take(i + 1)) == 256 * be_value(done) + quotient,
                    be_value(before.take(i as int)) == 58 * be_value(done) + rem,
                    cur == rem * 256 + before[i as int],
                    cur == 58 * quotient + cur % 58,
            ;
        }
        rem = cur % 58;
        i = i + 1;
    }
    proof {
        assert(num@.take(num@.len() as int) =~= num@);
        assert(before.take(before.len() as int) =~= before);
    }
    rem as u8
}

/// How many zero bytes stand at the front.
fn count_leading_zeros(bytes: &Vec<u8>) -> (n: usize)
    ensures
        n == leading_zeros(bytes@),
{
    let mut i: usize = 0;
    proof {
        assert(bytes@.skip(0) =~= bytes@);
    }
    while i < bytes.len() && bytes[i] == 0
        invariant
            i <= bytes.len(),
            leading_zeros(bytes@) == i + leading_zeros(bytes@.skip(i as int)),
        decreases bytes.len() - i,
    {
        proof {
            assert(bytes@.skip(i as int).drop_first() =~= bytes@.skip(i + 1));
        }
        i = i + 1;
    }
    i
}

/// A copy of the bytes.
fn copy_bytes(bytes: &Vec<u8>) -> (copy: Vec<u8>)
    ensures
        copy@ == bytes@,
{
    let mut copy: Vec<u8> = Vec::new();
    let mut i: usize = 0;
    while i < bytes.len()
        invariant
            i <= bytes.len(),
            copy@ == bytes@.take(i as int),
        decreases bytes.len() - i,
    {
        copy.push(bytes[i]);
        proof {
            assert(bytes@.take(i + 1) =~= bytes@.take(i as int).push(bytes@[i as int]));
        }
        i = i + 1;
    }
    proof {
        assert(bytes@.take(bytes@.len() as int) =~= bytes@);
    }
    copy
}

/// Puts the first `count` bytes of `more` behind `bytes`.
fn append_bytes(bytes: &mut Vec<u8>, more: &Vec<u8>, count: usize)
    requires
        count <= more.len(),
    ensures
        final(bytes)@ == old(bytes)@ + more@.take(count as int),
{
    let ghost before = bytes@;
    let mut i: usize = 0;
    proof {
        assert(before + more@.take(0) =~= before);
    }
    while i < count
        invariant
            i <= count <= more.len(),
            bytes@ == before + more@.take(i as int),
        decreases count - i,
    {
        bytes.push(more[i]);
        proof {
            assert(before + more@.take(i + 1) =~= (before + more@.take(i as int)).push(
                more@[i as int],
            ));
        }
        i = i + 1;
    }
}

/// Writes `bytes` in base 58.
pub fn to_base58(bytes: &Vec<u8>) -> (text: String)
    ensures
        text@ == base58(bytes@),
{
    let zeros: usize = count_leading_zeros(bytes);
    let mut num = copy_bytes(bytes);
    let mut digits: Vec<u8> = Vec::new();
    proof {
        assert(digits_of(be_value(num@)) + reversed_digits(digits@) =~= digits_of(
            be_value(bytes@),
        ));
    }
    while !is_zero(&num)
        invariant
            forall|j: int| 0 <= j < digits@.len() ==> digits@[j] < 58,
            digits_of(be_value(bytes@)) == digits_of(be_value(num@)) + reversed_digits(digits@),
        decreases be_value(num@),
    {
        let ghost n = be_value(num@);
        let ghost before = digits@;
        let remainder: u8 = divide_by_58(&mut num);
        digits.push(remainder);
        proof {
            lemma_digits_step(n, be_value(num@), remainder as nat);
            assert(reversed_digits(digits@) =~= seq![alphabet()[remainder as int]]
                + reversed_digits(before));
            assert(digits_of(be_value(num@)).push(alphabet()[remainder as int])
                + reversed_digits(before) =~= digits_of(be_value(num@)) + reversed_digits(
                digits@,
            ));
        }
    }
    proof {
        assert(digits_of(be_value(bytes@)) =~= reversed_digits(digits@));
    }
    let symbols = "123456789ABCDEFGHJKLMNPQRSTUVWXYZabcdefghijkmnopqrstuvwxyz";
    proof {
        reveal_strlit("123456789ABCDEFGHJKLMNPQRSTUVWXYZabcdefghijkmnopqrstuvwxyz");
        reveal_strlit("1");
    }
    let mut text = String::new();
    let mut k: usize = 0;
    while k < zeros
        invariant
            k <= zeros,
            "1"@ == seq!['1'],
            text@ == Seq::new(k as nat, |i: int| '1'),
        decreases zeros - k,
    {
        text.append("1");
        proof {
            assert(text@ =~= Seq::new((k + 1) as nat, |i: int| '1'));
        }
        k = k + 1;
    }
    let ghost ones = text@;
    let len: usize = digits.len();
    let mut j: usize = len;
    proof {
        assert(ones + reversed_digits(digits@).take(0) =~= ones);
    }
    while j > 0
        invariant
            j <= len,
            len == digits@.len(),
            symbols@ == alphabet(),
            symbols@.len() == 58,
            forall|i: int| 0 <= i < digits@.len() ==> digits@[i] < 58,
            text@ == ones + reversed_digits(digits@).take(len - j),
        decreases j,
    {
        j = j - 1;
        let d: usize = digits[j] as usize;
        let ghost before = text@;
        text.append(symbols.substring_char(d, d + 1));
        proof {
            assert(symbols@.subrange(d as int, d + 1) =~= seq![alphabet()[d as int]]);
            assert(reversed_digits(digits@)[len - 1 - j] == alphabet()[d as int]);
            assert(ones + reversed_digits(digits@).take(len - j) =~= before.push(
                alphabet()[d as int],
            ));
        }
    }
    proof {
        assert(reversed_digits(digits@).take(len as int) =~= reversed_digits(digits@));
    }
    text
}

/// `data` with `version` in front of it and, behind it, the checksum that
/// the hash of their hash gives.
pub fn checked_payload(data: &Vec<u8>, version: &Vec<u8>, double_hash: &Vec<u8>) -> (payload: Vec<
    u8,
>)
    requires
        double_hash@.len() >= CHECKSUM_SIZE,
    ensures
        payload@ == version@ + data@ + double_hash@.take(CHECKSUM_SIZE as int),
{
    let mut payload = copy_bytes(version);
    append_bytes(&mut payload, data, data.len());
    proof {
        assert(data@.take(data@.len() as int) =~= data@);
    }
    append_bytes(&mut payload, double_hash, CHECKSUM_SIZE);
    payload
}

/// Writes `data` in base 58 with `version` in front of it and the checksum
/// of both behind it.
pub fn to_base58_check(data: &Vec<u8>, version: &Vec<u8>) -> (text: String)
    ensures
        text@ == base58_check(data@, version@),
{
    let mut both = copy_bytes(version);
    append_bytes(&mut both, data, data.len());
    proof {
        assert(data@.take(data@.len() as int) =~= data@);
    }
    let first = sha256(&both);
    let second = sha256(&first);
    let payload = checked_payload(data, version, &second);
    to_base58(&payload)
}

} // verus!
