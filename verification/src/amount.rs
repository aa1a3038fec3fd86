//! Turning an amount written in whole coins into the smallest unit, and
//! back into words.

use vstd::prelude::*;
use vstd::string::*;
use vstd::utf8::is_ascii_chars;
use crate::error::{ErrorView, Wallet713Error};
use crate::number::{all_digits, decimal_value, digit_value, is_digit, unsigned_part};
use crate::text::chars_of;

verus! {

/// How many of the smallest unit make one coin.
pub const COIN: u64 = 1_000_000_000;

/// The most whole coins that an amount handed to the converter may have.
/// With no more of them the amount in the smallest unit fits in 64 bits,
/// whatever stands behind the decimal point.
pub const MAX_WHOLE_COINS: u64 = 18_446_744_063;

/// What `grin_core::core::amount_from_hr_string` makes of a text: the amount
/// in the smallest unit, or nothing where it reports the text as invalid.
pub uninterp spec fn hr_amount(text: Seq<char>) -> Option<u64>;

/// What `grin_core::core::amount_to_hr_string` writes for an amount in the
/// smallest unit: the amount in coins, as a decimal number.
pub uninterp spec fn hr_string(amount: u64, truncate: bool) -> Seq<char>;

/// How many characters stand in front of the first full stop of `text`: all
/// of them where it has none.
pub open spec fn whole_len(text: Seq<char>) -> nat
    decreases text.len(),
{
    if text.len() == 0 || text[0] == '.' {
        0
    } else {
        1 + whole_len(text.drop_first())
    }
}

/// What stands in front of the first full stop of `text`.
pub open spec fn whole_part(text: Seq<char>) -> Seq<char> {
    text.take(whole_len(text) as int)
}

/// Whether `s` is written as an unsigned number: one or more decimal
/// digits, with or without a plus sign in front.
pub open spec fn is_number(s: Seq<char>) -> bool {
    unsigned_part(s).len() > 0 && all_digits(unsigned_part(s))
}

/// Whether `s` is a number of more than `MAX_WHOLE_COINS`.
pub open spec fn is_too_large(s: Seq<char>) -> bool {
    is_number(s) && decimal_value(unsigned_part(s)) > MAX_WHOLE_COINS
}

/// The texts that are handed to the converter: ASCII only, so that it cuts
/// no character in two, and with no more than `MAX_WHOLE_COINS` in front of
/// the decimal point, so that its arithmetic stays inside 64 bits.
pub open spec fn is_guarded(text: Seq<char>) -> bool {
    is_ascii_chars(text) && !is_too_large(whole_part(text))
}

/// The amount that a text of digits alone stands for: so many whole coins,
/// in the smallest unit. Nothing for every other text, and for more than
/// `MAX_WHOLE_COINS`.
pub open spec fn whole_coins(text: Seq<char>) -> Option<u64> {
    if text.len() > 0 && all_digits(text) && decimal_value(text) <= MAX_WHOLE_COINS {
        Some((decimal_value(text) * COIN) as u64)
    } else {
        None
    }
}

/// The amount that `text` stands for, in the smallest unit: for a text of
/// digits alone so many whole coins, for every other text what the
/// converter makes of it.
pub open spec fn spec_amount(text: Seq<char>) -> Result<u64, ErrorView> {
    match whole_coins(text) {
        Some(amount) => Ok(amount),
        None => spec_amount_from(text, hr_amount(text)),
    }
}

/// The amount that `text` stands for once the converter has answered with
/// `converted`: that answer where the text was fit to be handed over and the
/// converter accepted it.
pub open spec fn spec_amount_from(text: Seq<char>, converted: Option<u64>) -> Result<
    u64,
    ErrorView,
> {
    if is_guarded(text) && converted is Some {
        Ok(converted->0)
    } else {
        Err(ErrorView::InvalidAmount(text))
    }
}

/// The view of an amount or the failure in its place.
pub open spec fn amount_view(r: Result<u64, Wallet713Error>) -> Result<u64, ErrorView> {
    match r {
        Ok(v) => Ok(v),
        Err(e) => Err(e@),
    }
}

/// A text of digits alone has no full stop: all of it is its whole part.
pub proof fn lemma_digits_have_no_point(text: Seq<char>)
    requires
        all_digits(text),
    ensures
        whole_len(text) == text.len(),
        whole_part(text) == text,
    decreases text.len(),
{
    if text.len() > 0 {
        let tail = text.drop_first();
        assert(is_digit(text[0]));
        assert forall|i: int| 0 <= i < tail.len() implies is_digit(#[trigger] tail[i]) by {
            assert(tail[i] == text[i + 1]);
        }
        lemma_digits_have_no_point(tail);
    }
    assert(text.take(text.len() as int) =~= text);
}

/// A text that stands for whole coins is fit to be handed to the converter.
pub proof fn lemma_whole_coins_are_guarded(text: Seq<char>)
    requires
        whole_coins(text) is Some,
    ensures
        is_guarded(text),
{
    lemma_digits_have_no_point(text);
    assert(is_digit(text[0]));
    assert(unsigned_part(text) == text);
    assert forall|i: int| 0 <= i < text.len() implies '\0' <= #[trigger] text[i] <= '\u{7f}' by {
        assert(is_digit(text[i]));
    }
}

/// Calls `grin_core::core::amount_from_hr_string`, which reads a decimal
/// number of coins with up to nine decimal places and gives it in the
/// smallest unit. The contract names its answer: the same text always gets
/// the same answer. Of a text of digits alone it says which: the digits'
/// number of coins, in the smallest unit. The texts left out are those on
/// which the outside function can overflow or cut a character in two.
#[verifier::external_body]
fn amount_from_hr_string(text: &str) -> (amount: Option<u64>)
    requires
        is_guarded(text@),
    ensures
        amount == hr_amount(text@),
        whole_coins(text@) is Some ==> amount == whole_coins(text@),
{
    match grin_core::core::amount_from_hr_string(text) {
        Ok(v) => Some(v),
        Err(_) => None,
    }
}

/// Calls `grin_core::core::amount_to_hr_string`, which writes an amount in
/// the smallest unit as a decimal number of coins. The contract names what
/// it writes and says no more.
#[verifier::external_body]
fn amount_to_hr_string(amount: u64, truncate: bool) -> (text: String)
    ensures
        text@ == hr_string(amount, truncate),
{
    grin_core::core::amount_to_hr_string(amount, truncate)
}

/// How many characters stand in front of the first full stop.
fn whole_length(chars: &Vec<char>) -> (n: usize)
    ensures
        n == whole_len(chars@),
        n <= chars@.len(),
{
    let mut i: usize = 0;
    proof {
        assert(chars@.skip(0) =~= chars@);
    }
    while i < chars.len()
        invariant
            i <= chars.len(),
            whole_len(chars@) == i + whole_len(chars@.skip(i as int)),
        decreases chars.len() - i,
    {
        proof {
            assert(chars@.skip(i as int).drop_first() =~= chars@.skip(i + 1));
            assert(chars@.skip(i as int)[0] == chars@[i as int]);
        }
        if chars[i] == '.' {
            return i;
        }
        i = i + 1;
    }
    i
}

/// Whether the first `end` characters are a number of more than
/// `MAX_WHOLE_COINS`.
fn too_large(chars: &Vec<char>, end: usize) -> (r: bool)
    requires
        end <= chars.len(),
    ensures
        r == is_too_large(chars@.take(end as int)),
{
    let ghost whole = chars@.take(end as int);
    let first: usize = if end > 0 && chars[0] == '+' {
        1
    } else {
        0
    };
    let ghost digits = unsigned_part(whole);
    proof {
        assert(digits =~= whole.skip(first as int));
    }
    if first == end {
        return false;
    }
    let mut value: u64 = 0;
    let mut over: bool = false;
    let mut i: usize = first;
    while i < end
        invariant
            first <= i <= end <= chars.len(),
            whole == chars@.take(end as int),
            digits == unsigned_part(whole),
            digits == whole.skip(first as int),
            all_digits(digits.take(i - first)),
            !over ==> value == decimal_value(digits.take(i - first)) && value <= MAX_WHOLE_COINS,
            over ==> decimal_value(digits.take(i - first)) > MAX_WHOLE_COINS,
        decreases end - i,
    {
        let c: char = chars[i];
        let ghost prefix = digits.take(i - first + 1);
        proof {
            assert(prefix.drop_last() =~= digits.take(i - first));
            assert(digits[i - first] == c);
            assert(prefix.last() == c);
            assert(decimal_value(prefix) == 10 * decimal_value(prefix.drop_last())
                + digit_value(c));
        }
        if !(c >= '0' && c <= '9') {
            proof {
                assert(!is_digit(digits[i - first]));
            }
            return false;
        }
        proof {
            assert forall|j: int| 0 <= j < prefix.len() implies is_digit(#[trigger] prefix[j]) by {
                if j < i - first {
                    assert(prefix[j] == digits.take(i - first)[j]);
                }
            }
        }
        if !over {
            let d: u64 = (c as u32 - '0' as u32) as u64;
            let next: u64 = 10 * value + d;
            if next > MAX_WHOLE_COINS {
                over = true;
            } else {
                value = next;
            }
        }
        i = i + 1;
    }
    proof {
        assert(digits.take(end - first) =~= digits);
    }
    over
}

/// Whether `text` is fit to be handed to the converter.
pub fn guarded(text: &str) -> (r: bool)
    ensures
        r == is_guarded(text@),
{
    if !text.is_ascii() {
        return false;
    }
    let chars = chars_of(text);
    let n: usize = whole_length(&chars);
    !too_large(&chars, n)
}

/// The amount that `raw` stands for, given the converter's answer to it.
pub fn amount_or_error(raw: &str, converted: Option<u64>) -> (r: Result<u64, Wallet713Error>)
    ensures
        amount_view(r) == spec_amount_from(raw@, converted),
{
    if !guarded(raw) {
        return Err(Wallet713Error::InvalidAmount(raw.to_owned()));
    }
    match converted {
        Some(v) => Ok(v),
        None => Err(Wallet713Error::InvalidAmount(raw.to_owned())),
    }
}

/// The amount that `raw` stands for, in the smallest unit; `InvalidAmount`
/// with the text where it stands for none. A text of digits alone stands for
/// so many whole coins: `5` for 5,000,000,000 of the smallest unit.
pub fn resolve_amount(raw: &str) -> (r: Result<u64, Wallet713Error>)
    ensures
        amount_view(r) == spec_amount(raw@),
{
    proof {
        if whole_coins(raw@) is Some {
            lemma_whole_coins_are_guarded(raw@);
        }
    }
    if guarded(raw) {
        let converted = amount_from_hr_string(raw);
        amount_or_error(raw, converted)
    } else {
        amount_or_error(raw, None)
    }
}

/// The message that tells of an amount that was sent: the transaction, the
/// amount and the address, each in square brackets.
pub open spec fn spec_sent_message(slate_id: Seq<char>, amount: Seq<char>, to: Seq<char>) -> Seq<
    char,
> {
    "slate ["@ + slate_id + "] for ["@ + amount + "] grins sent successfully to ["@ + to + "]"@
}

/// Puts the message together from the transaction, the amount as it is
/// written, and the address.
pub fn sent_message(slate_id: &str, amount: &str, to: &str) -> (message: String)
    ensures
        message@ == spec_sent_message(slate_id@, amount@, to@),
{
    let mut message = "slate [".to_owned();
    message.append(slate_id);
    message.append("] for [");
    message.append(amount);
    message.append("] grins sent successfully to [");
    message.append(to);
    message.append("]");
    message
}

/// The message that tells of an amount that was sent, with the amount,
/// given in the smallest unit, written in coins.
pub fn report_sent(slate_id: &str, amount: u64, to: &str) -> (message: String)
    ensures
        message@ == spec_sent_message(slate_id@, hr_string(amount, false), to@),
{
    let written = amount_to_hr_string(amount, false);
    sent_message(slate_id, written.as_str(), to)
}

} // verus!
