//! The big-integer radix codec: the input bytes read as one big-endian
//! number and written in the radix of the alphabet, one leading first symbol
//! for each leading zero byte.
//!
//! The arithmetic is the work of the `base-x` crate. This module decides
//! which alphabets reach it.

use vstd::prelude::*;
use vstd::string::StrSliceExecFns;
use crate::error::{bytes_outcome, text_outcome, EngineError, MalformedReason};

verus! {

/// The Bitcoin alphabet of base 58.
pub const BASE58_ALPHABET: &'static str =
    "123456789ABCDEFGHJKLMNPQRSTUVWXYZabcdefghijkmnopqrstuvwxyz";

/// The alphabet of base 62: digits, then upper case, then lower case.
pub const BASE62_ALPHABET: &'static str =
    "0123456789ABCDEFGHIJKLMNOPQRSTUVWXYZabcdefghijklmnopqrstuvwxyz";

/// The digits of `input`, read as a big-endian number, in the radix and the
/// symbols of `alphabet`.
pub uninterp spec fn positional_text(alphabet: Seq<char>, input: Seq<u8>) -> Seq<char>;

/// The bytes of the number that `text` writes in the radix and the symbols
/// of `alphabet`, if each of its characters is a symbol.
pub uninterp spec fn positional_bytes(alphabet: Seq<char>, text: Seq<char>) -> Option<Seq<u8>>;

/// How many times `x` stands at the start of `s` before anything else.
pub open spec fn leading_run<T>(s: Seq<T>, x: T) -> nat
    decreases s.len(),
{
    if s.len() > 0 && s.first() == x {
        1 + leading_run(s.drop_first(), x)
    } else {
        0
    }
}

/// Whether `alphabet` has a radix that the codec can count in: at least two
/// symbols, no more than a 32-bit radix holds.
pub open spec fn radix_in_range(alphabet: Seq<char>) -> bool {
    2 <= alphabet.len() <= u32::MAX
}

/// Whether `alphabet` can serve: its radix is in range and it holds two
/// symbols that differ.
pub open spec fn alphabet_usable(alphabet: Seq<char>) -> bool {
    &&& radix_in_range(alphabet)
    &&& exists|i: int| 0 <= i < alphabet.len() && #[trigger] alphabet[i] != alphabet[0]
}

/// `base_x::encode`, with the alphabet given as text. The crate divides by
/// the number of symbols, taken as a `u32`: with none it panics, with one it
/// does not return. After the digits of the number it writes the first
/// symbol once for each leading zero byte of the input.
#[verifier::external_body]
fn base_x_encode(alphabet: &str, input: &[u8]) -> (r: String)
    requires
        radix_in_range(alphabet@),
    ensures
        r@ == positional_text(alphabet@, input@),
        leading_run(r@, alphabet@[0]) >= leading_run(input@, 0u8),
{
    base_x::encode(alphabet, input)
}

/// `base_x::decode`, with the alphabet given as text. Its one error says
/// that a character of the text is no symbol of the alphabet. Before the
/// bytes of the number it puts one zero byte for each leading first symbol
/// of the text.
#[verifier::external_body]
fn base_x_decode(alphabet: &str, text: &str) -> (r: Option<Vec<u8>>)
    requires
        radix_in_range(alphabet@),
    ensures
        r is Some <==> positional_bytes(alphabet@, text@) is Some,
        r matches Some(bytes) ==> positional_bytes(alphabet@, text@) == Some(bytes@),
        r matches Some(bytes) ==> leading_run(bytes@, 0u8) >= leading_run(text@, alphabet@[0]),
{
    base_x::decode(alphabet, text).ok()
}

/// Decides whether `alphabet` can serve as the digits of a radix.
pub fn check_alphabet(alphabet: &str) -> (r: bool)
    ensures
        r == alphabet_usable(alphabet@),
{
    let count: usize = alphabet.unicode_len();
    if count < 2 || count > 0xffff_ffff {
        return false;
    }
    let first: char = alphabet.get_char(0);
    let mut differs: bool = false;
    for c in it: alphabet.chars()
        invariant
            it.seq() == alphabet@,
            first == alphabet@[0],
            differs <==> exists|i: int| 0 <= i < it.index() && #[trigger] alphabet@[i] != first,
    {
        if c != first {
            differs = true;
        }
    }
    differs
}

/// The text of `input` over `alphabet`, or the refusal of the alphabet.
pub open spec fn positional_encoded(alphabet: Seq<char>, input: Seq<u8>) -> Result<
    Seq<char>,
    EngineError,
> {
    if alphabet_usable(alphabet) {
        Ok(positional_text(alphabet, input))
    } else {
        Err(EngineError::MalformedInput(MalformedReason::Alphabet))
    }
}

/// The bytes of `text` over an alphabet that can serve, or the refusal of a
/// character that is no symbol.
pub open spec fn positional_read(alphabet: Seq<char>, text: Seq<char>) -> Result<
    Seq<u8>,
    EngineError,
> {
    match positional_bytes(alphabet, text) {
        Some(bytes) => Ok(bytes),
        None => Err(EngineError::MalformedInput(MalformedReason::Symbol)),
    }
}

/// The bytes of `text` over `alphabet`, the refusal of the alphabet, or that
/// of a character that is no symbol.
pub open spec fn positional_decoded(alphabet: Seq<char>, text: Seq<char>) -> Result<
    Seq<u8>,
    EngineError,
> {
    if alphabet_usable(alphabet) {
        positional_read(alphabet, text)
    } else {
        Err(EngineError::MalformedInput(MalformedReason::Alphabet))
    }
}

/// Encodes `input` in the radix of `alphabet`. The text starts with the
/// first symbol at least once for each leading zero byte of `input`.
pub fn encode_positional(alphabet: &str, input: &[u8]) -> (r: Result<String, EngineError>)
    ensures
        text_outcome(r) == positional_encoded(alphabet@, input@),
        r matches Ok(text) ==> leading_run(text@, alphabet@[0]) >= leading_run(input@, 0u8),
{
    if !check_alphabet(alphabet) {
        return Err(EngineError::MalformedInput(MalformedReason::Alphabet));
    }
    Ok(base_x_encode(alphabet, input))
}

/// Decodes `text`, written in the radix of `alphabet`. The bytes start with
/// a zero at least once for each leading first symbol of `text`.
pub fn decode_positional(alphabet: &str, text: &str) -> (r: Result<Vec<u8>, EngineError>)
    ensures
        bytes_outcome(r) == positional_decoded(alphabet@, text@),
        r matches Ok(bytes) ==> leading_run(bytes@, 0u8) >= leading_run(text@, alphabet@[0]),
{
    if !check_alphabet(alphabet) {
        return Err(EngineError::MalformedInput(MalformedReason::Alphabet));
    }
    match base_x_decode(alphabet, text) {
        Some(bytes) => Ok(bytes),
        None => Err(EngineError::MalformedInput(MalformedReason::Symbol)),
    }
}

/// Both standard alphabets can serve.
pub proof fn lemma_standard_alphabets_usable()
    ensures
        alphabet_usable(BASE58_ALPHABET@),
        alphabet_usable(BASE62_ALPHABET@),
{
    reveal_strlit("123456789ABCDEFGHJKLMNPQRSTUVWXYZabcdefghijkmnopqrstuvwxyz");
    reveal_strlit("0123456789ABCDEFGHIJKLMNOPQRSTUVWXYZabcdefghijklmnopqrstuvwxyz");
    assert(BASE58_ALPHABET@[1] != BASE58_ALPHABET@[0]);
    assert(BASE62_ALPHABET@[1] != BASE62_ALPHABET@[0]);
}

} // verus!
