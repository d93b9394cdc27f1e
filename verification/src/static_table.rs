//! The static-table codecs: base 85 in the alphabet of RFC 1924 and basE91,
//! each with its one built-in alphabet.
//!
//! The conversions are the work of the `base85` and `base91` crates. The
//! base-85 decoder adds up each group of digits in 32 bits; this module reads
//! the digits first and hands over only text whose groups fit.

use vstd::prelude::*;
use vstd::utf8::encode_utf8;
use crate::error::{bytes_outcome, text_outcome, EngineError, MalformedReason};
use crate::text::{ascii_text, lemma_ascii_is_utf8, utf8_text};

verus! {

/// The value of a base-85 digit, if `b` is one: `0`-`9`, `A`-`Z`, `a`-`z`,
/// then the 23 punctuation marks ``!#$%&()*+-;<=>?@^_`{|}~`` in that order.
pub open spec fn base85_digit(b: u8) -> Option<nat> {
    if 0x30 <= b <= 0x39 {
        Some((b - 0x30) as nat)
    } else if 0x41 <= b <= 0x5a {
        Some((b - 0x41 + 10) as nat)
    } else if 0x61 <= b <= 0x7a {
        Some((b - 0x61 + 36) as nat)
    } else if b == 0x21 {
        Some(62)
    } else if 0x23 <= b <= 0x26 {
        Some((b - 0x23 + 63) as nat)
    } else if 0x28 <= b <= 0x2b {
        Some((b - 0x28 + 67) as nat)
    } else if b == 0x2d {
        Some(71)
    } else if 0x3b <= b <= 0x40 {
        Some((b - 0x3b + 72) as nat)
    } else if 0x5e <= b <= 0x60 {
        Some((b - 0x5e + 78) as nat)
    } else if 0x7b <= b <= 0x7e {
        Some((b - 0x7b + 81) as nat)
    } else {
        None
    }
}

/// The digit at `at`, or the filler 126 that the decoder counts where a last,
/// short group has none.
pub open spec fn digit_or_filler(text: Seq<u8>, at: int) -> nat {
    if at < text.len() {
        base85_digit(text[at])->0
    } else {
        126
    }
}

/// The number that the group of five digits from `start` writes in radix 85.
pub open spec fn group_value(text: Seq<u8>, start: int) -> nat {
    digit_or_filler(text, start) * 52200625 + digit_or_filler(text, start + 1) * 614125
        + digit_or_filler(text, start + 2) * 7225 + digit_or_filler(text, start + 3) * 85
        + digit_or_filler(text, start + 4)
}

/// Whether the digits from `start` stay within 32 bits as the decoder adds
/// them up. A last group of one digit is given up after its first product.
pub open spec fn span_fits(text: Seq<u8>, start: int) -> bool {
    if start + 1 == text.len() {
        digit_or_filler(text, start) * 52200625 <= u32::MAX
    } else {
        group_value(text, start) <= u32::MAX
    }
}

/// Whether group number `group` of `text`, counted from 0, stays within 32
/// bits.
pub open spec fn group_fits(text: Seq<u8>, group: int) -> bool {
    span_fits(text, 5 * group)
}

/// Whether every byte of `text` is a base-85 digit.
pub open spec fn all_base85_digits(text: Seq<u8>) -> bool {
    forall|i: int| 0 <= i < text.len() ==> base85_digit(#[trigger] text[i]) is Some
}

/// Whether every group of `text`, the last and perhaps short one too, stays
/// within 32 bits.
pub open spec fn all_groups_fit(text: Seq<u8>) -> bool {
    forall|group: int| 0 <= group && 5 * group < text.len() ==> #[trigger] group_fits(text, group)
}

/// The base-85 text of `input`.
pub uninterp spec fn base85_text(input: Seq<u8>) -> Seq<char>;

/// The bytes that base-85 text of whole digits stands for.
pub uninterp spec fn base85_bytes(text: Seq<u8>) -> Seq<u8>;

/// The basE91 text of `input`, as bytes.
pub uninterp spec fn base91_text(input: Seq<u8>) -> Seq<u8>;

/// The bytes that basE91 text stands for. Bytes outside the alphabet are
/// passed over.
pub uninterp spec fn base91_bytes(text: Seq<u8>) -> Seq<u8>;

/// `base85::encode`. The crate computes the length of the text from that of
/// the input, which overflows only above half the address space.
#[verifier::external_body]
fn base85_encode(input: &[u8]) -> (r: String)
    requires
        input@.len() <= usize::MAX / 2,
    ensures
        r@ == base85_text(input@),
{
    base85::encode(input)
}

/// `base85::decode`. The crate reads the text by its bytes, in groups of
/// five digits, and adds each group up in a `u32`: text with a group above
/// that panics where overflow is checked. Of text made of digits alone it
/// refuses only a last group of a single digit.
#[verifier::external_body]
fn base85_decode(text: &str) -> (r: Option<Vec<u8>>)
    requires
        all_base85_digits(encode_utf8(text@)),
        all_groups_fit(encode_utf8(text@)),
    ensures
        r is None <==> encode_utf8(text@).len() % 5 == 1,
        r matches Some(bytes) ==> bytes@ == base85_bytes(encode_utf8(text@)),
{
    base85::decode(text).ok()
}

/// `base91::slice_encode`, which encodes into ASCII. The crate reserves 13
/// bytes for every 10 of the input, a product that must fit a `usize`.
#[verifier::external_body]
fn base91_encode(input: &[u8]) -> (r: Vec<u8>)
    requires
        input@.len() * 13 <= usize::MAX,
    ensures
        r@ == base91_text(input@),
        forall|i: int| 0 <= i < r@.len() ==> #[trigger] r@[i] < 0x80,
{
    base91::slice_encode(input)
}

/// `base91::slice_decode`. It has no error: what is no symbol is skipped.
#[verifier::external_body]
fn base91_decode(text: &[u8]) -> (r: Vec<u8>)
    ensures
        r@ == base91_bytes(text@),
{
    base91::slice_decode(text)
}

/// The value of the digit `b`, if it is one.
fn digit_of(b: u8) -> (r: Option<u8>)
    ensures
        r is Some <==> base85_digit(b) is Some,
        r matches Some(d) ==> d == base85_digit(b)->0 && d < 85,
{
    if 0x30 <= b && b <= 0x39 {
        Some(b - 0x30)
    } else if 0x41 <= b && b <= 0x5a {
        Some(b - 0x41 + 10)
    } else if 0x61 <= b && b <= 0x7a {
        Some(b - 0x61 + 36)
    } else if b == 0x21 {
        Some(62)
    } else if 0x23 <= b && b <= 0x26 {
        Some(b - 0x23 + 63)
    } else if 0x28 <= b && b <= 0x2b {
        Some(b - 0x28 + 67)
    } else if b == 0x2d {
        Some(71)
    } else if 0x3b <= b && b <= 0x40 {
        Some(b - 0x3b + 72)
    } else if 0x5e <= b && b <= 0x60 {
        Some(b - 0x5e + 78)
    } else if 0x7b <= b && b <= 0x7e {
        Some(b - 0x7b + 81)
    } else {
        None
    }
}

/// The digit at `at`, or the filler beyond the end of the text.
fn digit_at(text: &[u8], at: usize) -> (r: u64)
    requires
        all_base85_digits(text@),
    ensures
        r == digit_or_filler(text@, at as int),
        r <= 126,
{
    if at < text.len() {
        match digit_of(text[at]) {
            Some(d) => d as u64,
            None => 0,
        }
    } else {
        126
    }
}

/// Adds up the group from `start` as the decoder does and says whether it
/// stays within 32 bits.
fn group_in_range(text: &[u8], start: usize) -> (r: bool)
    requires
        all_base85_digits(text@),
        start < text@.len(),
    ensures
        r == span_fits(text@, start as int),
{
    let left: usize = text.len() - start;
    let d0: u64 = digit_at(text, start);
    if left == 1 {
        d0 * 52200625 <= 0xffff_ffff
    } else {
        let d1: u64 = digit_at(text, start + 1);
        let d2: u64 = if left > 2 {
            digit_at(text, start + 2)
        } else {
            126
        };
        let d3: u64 = if left > 3 {
            digit_at(text, start + 3)
        } else {
            126
        };
        let d4: u64 = if left > 4 {
            digit_at(text, start + 4)
        } else {
            126
        };
        d0 * 52200625 + d1 * 614125 + d2 * 7225 + d3 * 85 + d4 <= 0xffff_ffff
    }
}

/// What stands in the way of decoding `text`, if anything: a byte that is no
/// digit, before that a group too large for four bytes, before that a last
/// group of a single digit.
pub open spec fn base85_obstacle(text: Seq<u8>) -> Option<MalformedReason> {
    if !all_base85_digits(text) {
        Some(MalformedReason::Symbol)
    } else if !all_groups_fit(text) {
        Some(MalformedReason::Range)
    } else if text.len() % 5 == 1 {
        Some(MalformedReason::Length)
    } else {
        None
    }
}

/// Reads the digits of `text` and says what stands in the way of decoding it.
pub fn check_base85(text: &[u8]) -> (r: Option<MalformedReason>)
    ensures
        r == base85_obstacle(text@),
{
    let len: usize = text.len();
    let mut i: usize = 0;
    while i < len
        invariant
            len == text@.len(),
            i <= len,
            forall|j: int| 0 <= j < i ==> base85_digit(#[trigger] text@[j]) is Some,
        decreases len - i,
    {
        if digit_of(text[i]).is_none() {
            return Some(MalformedReason::Symbol);
        }
        i = i + 1;
    }
    let mut start: usize = 0;
    let ghost mut checked: int = 0;
    while start < len
        invariant
            len == text@.len(),
            start <= len,
            start == 5 * checked,
            all_base85_digits(text@),
            forall|group: int| 0 <= group < checked ==> #[trigger] group_fits(text@, group),
        decreases len - start,
    {
        if !group_in_range(text, start) {
            assert(!group_fits(text@, checked));
            return Some(MalformedReason::Range);
        }
        assert(group_fits(text@, checked));
        if len - start <= 5 {
            assert forall|group: int| 0 <= group && 5 * group < len implies #[trigger] group_fits(
                text@,
                group,
            ) by {
                assert(group <= checked);
            }
            if len % 5 == 1 {
                return Some(MalformedReason::Length);
            }
            return None;
        }
        start = start + 5;
        proof {
            checked = checked + 1;
        }
    }
    None
}

/// The base-85 text of `input`, unless it is too long to encode.
pub open spec fn base85_encoded(input: Seq<u8>) -> Result<Seq<char>, EngineError> {
    if input.len() > usize::MAX / 2 {
        Err(EngineError::MalformedInput(MalformedReason::TooLong))
    } else {
        Ok(base85_text(input))
    }
}

/// The bytes of base-85 text, or what stands in the way of decoding it.
pub open spec fn base85_decoded(text: Seq<u8>) -> Result<Seq<u8>, EngineError> {
    match base85_obstacle(text) {
        Some(reason) => Err(EngineError::MalformedInput(reason)),
        None => Ok(base85_bytes(text)),
    }
}

/// The basE91 text of `input`, unless it is too long to encode.
pub open spec fn base91_encoded(input: Seq<u8>) -> Result<Seq<char>, EngineError> {
    if input.len() * 13 > usize::MAX {
        Err(EngineError::MalformedInput(MalformedReason::TooLong))
    } else {
        Ok(ascii_text(base91_text(input)))
    }
}

/// Encodes `input` in base 85.
pub fn encode_base85(input: &[u8]) -> (r: Result<String, EngineError>)
    ensures
        text_outcome(r) == base85_encoded(input@),
{
    if input.len() > usize::MAX / 2 {
        return Err(EngineError::MalformedInput(MalformedReason::TooLong));
    }
    Ok(base85_encode(input))
}

/// Decodes base-85 text.
pub fn decode_base85(text: &str) -> (r: Result<Vec<u8>, EngineError>)
    ensures
        bytes_outcome(r) == base85_decoded(encode_utf8(text@)),
{
    match check_base85(text.as_bytes()) {
        Some(reason) => Err(EngineError::MalformedInput(reason)),
        None => match base85_decode(text) {
            Some(bytes) => Ok(bytes),
            None => Err(EngineError::MalformedInput(MalformedReason::Length)),
        },
    }
}

/// Encodes `input` in basE91.
pub fn encode_base91(input: &[u8]) -> (r: Result<String, EngineError>)
    ensures
        text_outcome(r) == base91_encoded(input@),
{
    if input.len() > usize::MAX / 13 {
        return Err(EngineError::MalformedInput(MalformedReason::TooLong));
    }
    let text = base91_encode(input);
    proof {
        lemma_ascii_is_utf8(text@);
    }
    utf8_text(text)
}

/// Decodes basE91 text, given by its bytes.
pub fn decode_base91(text: &[u8]) -> (r: Vec<u8>)
    ensures
        r@ == base91_bytes(text@),
{
    base91_decode(text)
}

} // verus!
