//! The fixed-width radix codec: base 16, 32 and 64 by bit packing, with the
//! standard alphabets or one that the caller supplies.
//!
//! The packing itself is the work of the `data-encoding` crate. This module
//! states what is taken from it, and proves what the engine needs of
//! hexadecimal text from the definition of the format.

use vstd::prelude::*;
use vstd::utf8::{encode_utf8, is_ascii_chars, is_ascii_chars_encode_utf8};
use crate::error::{bytes_outcome, text_outcome, EngineError, MalformedReason};
use crate::text::{clean_whitespace, is_unicode_whitespace, lemma_nothing_to_strip, without_whitespace};

verus! {

/// The longest input, in bytes, that the codec crate encodes without
/// overflowing its length computation.
pub open spec fn encode_limit() -> nat {
    (usize::MAX / 512) as nat
}

/// The longest text, in bytes, that the codec crate decodes without
/// overflowing its length computation.
pub open spec fn decode_limit() -> nat {
    (usize::MAX / 8) as nat
}

/// The lowercase hexadecimal digit of a value below 16.
pub open spec fn hex_digit(v: u8) -> char {
    if v < 10 {
        (0x30 + v) as u8 as char
    } else {
        (0x57 + v) as u8 as char
    }
}

/// Lowercase hexadecimal text: two digits for each byte, the high half first.
pub open spec fn hex_text(bytes: Seq<u8>) -> Seq<char> {
    Seq::new(
        2 * bytes.len(),
        |i: int|
            if i % 2 == 0 {
                hex_digit(bytes[i / 2] / 16)
            } else {
                hex_digit(bytes[i / 2] % 16)
            },
    )
}

/// The value of a hexadecimal digit in either case, if `b` is one.
pub open spec fn hex_value(b: u8) -> Option<u8> {
    if 0x30 <= b <= 0x39 {
        Some((b - 0x30) as u8)
    } else if 0x61 <= b <= 0x66 {
        Some((b - 0x57) as u8)
    } else if 0x41 <= b <= 0x46 {
        Some((b - 0x37) as u8)
    } else {
        None
    }
}

/// The bytes that hexadecimal text stands for. A text of odd length is
/// refused for its length before its characters are looked at.
pub open spec fn hex_bytes(text: Seq<u8>) -> Result<Seq<u8>, MalformedReason> {
    if text.len() % 2 == 1 {
        Err(MalformedReason::Length)
    } else if exists|i: int| 0 <= i < text.len() && hex_value(#[trigger] text[i]) is None {
        Err(MalformedReason::Symbol)
    } else {
        Ok(
            Seq::new(
                text.len() / 2,
                |i: int| (hex_value(text[2 * i])->0 * 16 + hex_value(text[2 * i + 1])->0) as u8,
            ),
        )
    }
}

/// What a decoding result says in contracts.
pub open spec fn decoding_outcome(r: Result<Vec<u8>, MalformedReason>) -> Result<
    Seq<u8>,
    MalformedReason,
> {
    match r {
        Ok(v) => Ok(v@),
        Err(e) => Err(e),
    }
}

/// `Encoding::encode` of data-encoding, on its constant `HEXLOWER`: base 16
/// of RFC 4648 with the digits `0123456789abcdef`. The call panics above
/// `encode_limit()` bytes.
#[verifier::external_body]
fn hexlower_encode(input: &[u8]) -> (r: String)
    requires
        input@.len() <= encode_limit(),
    ensures
        r@ == hex_text(input@),
{
    data_encoding::HEXLOWER.encode(input)
}

/// `Encoding::decode` of data-encoding, on its constant
/// `HEXLOWER_PERMISSIVE`: base 16 that reads the letters in either case. The
/// crate checks the length first, then each character; hexadecimal has
/// neither padding nor trailing bits. The call panics above `decode_limit()`
/// bytes.
#[verifier::external_body]
fn hex_permissive_decode(input: &[u8]) -> (r: Result<Vec<u8>, MalformedReason>)
    requires
        input@.len() <= decode_limit(),
    ensures
        decoding_outcome(r) == hex_bytes(input@),
{
    match data_encoding::HEXLOWER_PERMISSIVE.decode(input) {
        Ok(bytes) => Ok(bytes),
        Err(e) => Err(
            match e.kind {
                data_encoding::DecodeKind::Length => MalformedReason::Length,
                data_encoding::DecodeKind::Symbol => MalformedReason::Symbol,
                data_encoding::DecodeKind::Trailing => MalformedReason::TrailingBits,
                data_encoding::DecodeKind::Padding => MalformedReason::Padding,
            },
        ),
    }
}

/// Each hexadecimal digit is read back as the value it was written for.
pub proof fn lemma_hex_digit_value(v: u8)
    requires
        v < 16,
    ensures
        hex_value(hex_digit(v) as u8) == Some(v),
        0x30 <= hex_digit(v) as u32 <= 0x66,
{
}

/// Hexadecimal text is plain ASCII without whitespace, and its bytes decode
/// to what was encoded.
pub proof fn lemma_hex_round_trip(bytes: Seq<u8>)
    ensures
        hex_bytes(encode_utf8(hex_text(bytes))) == Ok::<Seq<u8>, MalformedReason>(bytes),
        encode_utf8(hex_text(bytes)).len() == 2 * bytes.len(),
        forall|i: int|
            0 <= i < hex_text(bytes).len() ==> !is_unicode_whitespace(#[trigger] hex_text(bytes)[i]),
{
    let text = hex_text(bytes);
    assert forall|i: int| 0 <= i < text.len() implies {
        &&& 0x30 <= (#[trigger] text[i]) as u32 <= 0x66
        &&& hex_value(text[i] as u8) == Some(
            if i % 2 == 0 {
                bytes[i / 2] / 16
            } else {
                bytes[i / 2] % 16
            },
        )
    } by {
        let v: u8 = if i % 2 == 0 {
            bytes[i / 2] / 16
        } else {
            bytes[i / 2] % 16
        };
        lemma_hex_digit_value(v);
    }
    assert(is_ascii_chars(text));
    is_ascii_chars_encode_utf8(text);
    let wire = encode_utf8(text);
    assert forall|i: int| 0 <= i < wire.len() implies hex_value(#[trigger] wire[i]) is Some by {
        assert(wire[i] == text[i] as u8);
    }
    let back = hex_bytes(wire)->Ok_0;
    assert forall|k: int| 0 <= k < bytes.len() implies back[k] == bytes[k] by {
        assert(wire[2 * k] == text[2 * k] as u8);
        assert(wire[2 * k + 1] == text[2 * k + 1] as u8);
        assert((2 * k) % 2 == 0 && (2 * k) / 2 == k && (2 * k + 1) % 2 == 1 && (2 * k + 1) / 2
            == k);
    }
    assert(back =~= bytes);
}

/// Whether `c` can stand in standard base-32 text: `A`-`Z`, `2`-`7`, or the
/// padding `=`.
pub open spec fn is_base32_symbol(c: char) -> bool {
    ||| 'A' <= c <= 'Z'
    ||| '2' <= c <= '7'
    ||| c == '='
}

/// Whether `c` can stand in standard base-64 text: a letter, a digit, `+`,
/// `/`, or the padding `=`.
pub open spec fn is_base64_symbol(c: char) -> bool {
    ||| 'A' <= c <= 'Z'
    ||| 'a' <= c <= 'z'
    ||| '0' <= c <= '9'
    ||| c == '+'
    ||| c == '/'
    ||| c == '='
}

/// The padded base-32 text of RFC 4648 for `input`.
pub uninterp spec fn base32_text(input: Seq<u8>) -> Seq<char>;

/// What strict, padded base-32 decoding makes of the bytes of a text.
pub uninterp spec fn base32_bytes(text: Seq<u8>) -> Result<Seq<u8>, MalformedReason>;

/// The padded base-64 text of RFC 4648 for `input`.
pub uninterp spec fn base64_text(input: Seq<u8>) -> Seq<char>;

/// What strict, padded base-64 decoding makes of the bytes of a text.
pub uninterp spec fn base64_bytes(text: Seq<u8>) -> Result<Seq<u8>, MalformedReason>;

/// The text that an encoding specified by `symbols` and `padding` gives for
/// `input`.
pub uninterp spec fn specified_text(symbols: Seq<char>, padding: Option<char>, input: Seq<u8>) -> Seq<
    char,
>;

/// What decoding under an encoding specified by `symbols` and `padding`
/// makes of the bytes of a text.
pub uninterp spec fn specified_bytes(
    symbols: Seq<char>,
    padding: Option<char>,
    text: Seq<u8>,
) -> Result<Seq<u8>, MalformedReason>;

/// Whether `symbols` and `padding` specify an encoding: 2, 4, 8, 16, 32 or 64
/// ASCII symbols, none of them twice; padding only where the symbol width
/// does not divide 8, and then an ASCII character that is no symbol.
pub open spec fn alphabet_accepted(symbols: Seq<char>, padding: Option<char>) -> bool {
    &&& symbols.len() == 2 || symbols.len() == 4 || symbols.len() == 8 || symbols.len() == 16
        || symbols.len() == 32 || symbols.len() == 64
    &&& is_ascii_chars(symbols)
    &&& symbols.no_duplicates()
    &&& padding matches Some(p) ==> {
        &&& symbols.len() == 8 || symbols.len() == 32 || symbols.len() == 64
        &&& p <= '\u{7f}'
        &&& !symbols.contains(p)
    }
}

/// `Encoding::encode` of data-encoding, on its constant `BASE32`. The crate
/// documents that the encoding conforms to RFC 4648, which fixes the length
/// and the alphabet of the text, and that decoding an encoded text gives the
/// data back. The call panics above `encode_limit()` bytes.
#[verifier::external_body]
fn base32_encode(input: &[u8]) -> (r: String)
    requires
        input@.len() <= encode_limit(),
    ensures
        r@ == base32_text(input@),
        r@.len() == 8 * ((input@.len() + 4) / 5),
        forall|i: int| 0 <= i < r@.len() ==> is_base32_symbol(#[trigger] r@[i]),
        base32_bytes(encode_utf8(r@)) is Ok,
        base32_bytes(encode_utf8(r@))->Ok_0 == input@,
{
    data_encoding::BASE32.encode(input)
}

/// `Encoding::decode` of data-encoding, on its constant `BASE32`. The call
/// panics above `decode_limit()` bytes.
#[verifier::external_body]
fn base32_decode(input: &[u8]) -> (r: Result<Vec<u8>, MalformedReason>)
    requires
        input@.len() <= decode_limit(),
    ensures
        decoding_outcome(r) == base32_bytes(input@),
{
    data_encoding::BASE32.decode(input).map_err(
        |e|
            match e.kind {
                data_encoding::DecodeKind::Length => MalformedReason::Length,
                data_encoding::DecodeKind::Symbol => MalformedReason::Symbol,
                data_encoding::DecodeKind::Trailing => MalformedReason::TrailingBits,
                data_encoding::DecodeKind::Padding => MalformedReason::Padding,
            },
    )
}

/// `Encoding::encode` of data-encoding, on its constant `BASE64`. The crate
/// documents that the encoding conforms to RFC 4648, which fixes the length
/// and the alphabet of the text, and that decoding an encoded text gives the
/// data back. The call panics above `encode_limit()` bytes.
#[verifier::external_body]
fn base64_encode(input: &[u8]) -> (r: String)
    requires
        input@.len() <= encode_limit(),
    ensures
        r@ == base64_text(input@),
        r@.len() == 4 * ((input@.len() + 2) / 3),
        forall|i: int| 0 <= i < r@.len() ==> is_base64_symbol(#[trigger] r@[i]),
        base64_bytes(encode_utf8(r@)) is Ok,
        base64_bytes(encode_utf8(r@))->Ok_0 == input@,
{
    data_encoding::BASE64.encode(input)
}

/// `Encoding::decode` of data-encoding, on its constant `BASE64`. The call
/// panics above `decode_limit()` bytes.
#[verifier::external_body]
fn base64_decode(input: &[u8]) -> (r: Result<Vec<u8>, MalformedReason>)
    requires
        input@.len() <= decode_limit(),
    ensures
        decoding_outcome(r) == base64_bytes(input@),
{
    data_encoding::BASE64.decode(input).map_err(
        |e|
            match e.kind {
                data_encoding::DecodeKind::Length => MalformedReason::Length,
                data_encoding::DecodeKind::Symbol => MalformedReason::Symbol,
                data_encoding::DecodeKind::Trailing => MalformedReason::TrailingBits,
                data_encoding::DecodeKind::Padding => MalformedReason::Padding,
            },
    )
}

/// `Specification::encoding` of data-encoding, then `Encoding::encode`. The
/// specification is the crate's default but for the symbols and the padding.
/// The crate refuses it exactly where `alphabet_accepted` is false. The
/// encoding panics above `encode_limit()` bytes.
#[verifier::external_body]
fn specified_encode(symbols: &str, padding: Option<char>, input: &[u8]) -> (r: Option<String>)
    requires
        input@.len() <= encode_limit(),
    ensures
        r is Some <==> alphabet_accepted(symbols@, padding),
        r matches Some(t) ==> t@ == specified_text(symbols@, padding, input@),
{
    let mut spec = data_encoding::Specification::new();
    spec.symbols.push_str(symbols);
    spec.padding = padding;
    let encoding = spec.encoding().ok()?;
    Some(encoding.encode(input))
}

/// `Specification::encoding` of data-encoding, then `Encoding::decode`. The
/// specification is the crate's default but for the symbols and the padding.
/// The crate refuses it exactly where `alphabet_accepted` is false. The
/// decoding panics above `decode_limit()` bytes.
#[verifier::external_body]
fn specified_decode(symbols: &str, padding: Option<char>, input: &[u8]) -> (r: Option<
    Result<Vec<u8>, MalformedReason>,
>)
    requires
        input@.len() <= decode_limit(),
    ensures
        r is Some <==> alphabet_accepted(symbols@, padding),
        r matches Some(d) ==> decoding_outcome(d) == specified_bytes(symbols@, padding, input@),
{
    let mut spec = data_encoding::Specification::new();
    spec.symbols.push_str(symbols);
    spec.padding = padding;
    let encoding = spec.encoding().ok()?;
    Some(
        encoding.decode(input).map_err(
            |e|
                match e.kind {
                    data_encoding::DecodeKind::Length => MalformedReason::Length,
                    data_encoding::DecodeKind::Symbol => MalformedReason::Symbol,
                    data_encoding::DecodeKind::Trailing => MalformedReason::TrailingBits,
                    data_encoding::DecodeKind::Padding => MalformedReason::Padding,
                },
        ),
    )
}

/// The outcome of a decoder on the bytes `wire` of a text: the text may be
/// too long to be read at all, and else `read` is what the decoder says.
pub open spec fn decoded_wire(wire: Seq<u8>, read: Result<Seq<u8>, MalformedReason>) -> Result<
    Seq<u8>,
    EngineError,
> {
    if wire.len() > decode_limit() {
        Err(EngineError::MalformedInput(MalformedReason::TooLong))
    } else {
        match read {
            Ok(bytes) => Ok(bytes),
            Err(reason) => Err(EngineError::MalformedInput(reason)),
        }
    }
}

/// The bytes of `text` as they reach a decoder: whitespace gone, the rest in
/// UTF-8.
pub open spec fn wire_of(text: Seq<char>) -> Seq<u8> {
    encode_utf8(without_whitespace(text))
}

/// `input` in lowercase hexadecimal, unless it is too long to encode.
pub open spec fn hex_encoded(input: Seq<u8>) -> Result<Seq<char>, EngineError> {
    if input.len() > encode_limit() {
        Err(EngineError::MalformedInput(MalformedReason::TooLong))
    } else {
        Ok(hex_text(input))
    }
}

/// `input` in padded base 32, unless it is too long to encode.
pub open spec fn base32_encoded(input: Seq<u8>) -> Result<Seq<char>, EngineError> {
    if input.len() > encode_limit() {
        Err(EngineError::MalformedInput(MalformedReason::TooLong))
    } else {
        Ok(base32_text(input))
    }
}

/// `input` in padded base 64, unless it is too long to encode.
pub open spec fn base64_encoded(input: Seq<u8>) -> Result<Seq<char>, EngineError> {
    if input.len() > encode_limit() {
        Err(EngineError::MalformedInput(MalformedReason::TooLong))
    } else {
        Ok(base64_text(input))
    }
}

/// The bytes that hexadecimal `text` stands for, whitespace passed over and
/// letters in either case.
pub open spec fn hex_decoded(text: Seq<char>) -> Result<Seq<u8>, EngineError> {
    decoded_wire(wire_of(text), hex_bytes(wire_of(text)))
}

/// The bytes that base-32 `text` stands for, whitespace passed over.
pub open spec fn base32_decoded(text: Seq<char>) -> Result<Seq<u8>, EngineError> {
    decoded_wire(wire_of(text), base32_bytes(wire_of(text)))
}

/// The bytes that base-64 `text` stands for, whitespace passed over.
pub open spec fn base64_decoded(text: Seq<char>) -> Result<Seq<u8>, EngineError> {
    decoded_wire(wire_of(text), base64_bytes(wire_of(text)))
}

/// Text in a standard alphabet holds no whitespace and is its own UTF-8
/// encoding, byte for character.
proof fn lemma_symbols_are_clean(text: Seq<char>)
    requires
        forall|i: int|
            0 <= i < text.len() ==> is_base32_symbol(#[trigger] text[i]) || is_base64_symbol(
                text[i],
            ),
    ensures
        without_whitespace(text) == text,
        encode_utf8(text).len() == text.len(),
{
    assert forall|i: int| 0 <= i < text.len() implies !is_unicode_whitespace(
        #[trigger] text[i],
    ) by {
        assert(is_base32_symbol(text[i]) || is_base64_symbol(text[i]));
    }
    lemma_nothing_to_strip(text);
    assert(is_ascii_chars(text)) by {
        assert forall|i: int| 0 <= i < text.len() implies '\0' <= #[trigger] text[i]
            <= '\u{7f}' by {
            assert(is_base32_symbol(text[i]) || is_base64_symbol(text[i]));
        }
    }
    is_ascii_chars_encode_utf8(text);
}

/// Writes `input` in lowercase hexadecimal. The text decodes to `input`.
pub fn encode_hex(input: &[u8]) -> (r: Result<String, EngineError>)
    ensures
        text_outcome(r) == hex_encoded(input@),
        r matches Ok(text) ==> hex_decoded(text@) == Ok::<Seq<u8>, EngineError>(input@),
{
    if input.len() > usize::MAX / 512 {
        return Err(EngineError::MalformedInput(MalformedReason::TooLong));
    }
    let text = hexlower_encode(input);
    proof {
        lemma_hex_round_trip(input@);
        lemma_nothing_to_strip(text@);
    }
    Ok(text)
}

/// Writes `input` in padded base 32. The text decodes to `input`.
pub fn encode_base32(input: &[u8]) -> (r: Result<String, EngineError>)
    ensures
        text_outcome(r) == base32_encoded(input@),
        r matches Ok(text) ==> base32_decoded(text@) == Ok::<Seq<u8>, EngineError>(input@),
{
    if input.len() > usize::MAX / 512 {
        return Err(EngineError::MalformedInput(MalformedReason::TooLong));
    }
    let text = base32_encode(input);
    proof {
        lemma_symbols_are_clean(text@);
    }
    Ok(text)
}

/// Writes `input` in padded base 64. The text decodes to `input`.
pub fn encode_base64(input: &[u8]) -> (r: Result<String, EngineError>)
    ensures
        text_outcome(r) == base64_encoded(input@),
        r matches Ok(text) ==> base64_decoded(text@) == Ok::<Seq<u8>, EngineError>(input@),
{
    if input.len() > usize::MAX / 512 {
        return Err(EngineError::MalformedInput(MalformedReason::TooLong));
    }
    let text = base64_encode(input);
    proof {
        lemma_symbols_are_clean(text@);
    }
    Ok(text)
}

/// Lifts the outcome of a decoder into that of the engine.
fn lift(r: Result<Vec<u8>, MalformedReason>) -> (out: Result<Vec<u8>, EngineError>)
    ensures
        bytes_outcome(out) == match decoding_outcome(r) {
            Ok(bytes) => Ok::<Seq<u8>, EngineError>(bytes),
            Err(reason) => Err(EngineError::MalformedInput(reason)),
        },
{
    match r {
        Ok(bytes) => Ok(bytes),
        Err(reason) => Err(EngineError::MalformedInput(reason)),
    }
}

/// Reads hexadecimal text, in either case, whitespace passed over.
pub fn decode_hex_to_bytes(input: &str) -> (r: Result<Vec<u8>, EngineError>)
    ensures
        bytes_outcome(r) == hex_decoded(input@),
{
    let clean = clean_whitespace(input);
    let wire = clean.as_str().as_bytes();
    if wire.len() > usize::MAX / 8 {
        return Err(EngineError::MalformedInput(MalformedReason::TooLong));
    }
    lift(hex_permissive_decode(wire))
}

/// Reads padded base-32 text, whitespace passed over.
pub fn decode_base32_to_bytes(input: &str) -> (r: Result<Vec<u8>, EngineError>)
    ensures
        bytes_outcome(r) == base32_decoded(input@),
{
    let clean = clean_whitespace(input);
    let wire = clean.as_str().as_bytes();
    if wire.len() > usize::MAX / 8 {
        return Err(EngineError::MalformedInput(MalformedReason::TooLong));
    }
    lift(base32_decode(wire))
}

/// Reads padded base-64 text, whitespace passed over.
pub fn decode_base64_to_bytes(input: &str) -> (r: Result<Vec<u8>, EngineError>)
    ensures
        bytes_outcome(r) == base64_decoded(input@),
{
    let clean = clean_whitespace(input);
    let wire = clean.as_str().as_bytes();
    if wire.len() > usize::MAX / 8 {
        return Err(EngineError::MalformedInput(MalformedReason::TooLong));
    }
    lift(base64_decode(wire))
}

/// The padding that goes with a custom alphabet of `radix` symbols: `=` for
/// 32 and 64, none otherwise.
pub open spec fn custom_padding(radix: nat) -> Option<char> {
    if radix == 32 || radix == 64 {
        Some('=')
    } else {
        None
    }
}

/// A fixed-width encoding over an alphabet that the caller supplied.
pub struct CustomEncoding {
    pub symbols: String,
    pub padding: Option<char>,
}

/// The text that the encoding over `symbols` gives for `input`, or why it
/// gives none.
pub open spec fn custom_encoded(symbols: Seq<char>, padding: Option<char>, input: Seq<u8>) -> Result<
    Seq<char>,
    EngineError,
> {
    if input.len() > encode_limit() {
        Err(EngineError::MalformedInput(MalformedReason::TooLong))
    } else if !alphabet_accepted(symbols, padding) {
        Err(EngineError::MalformedInput(MalformedReason::Alphabet))
    } else {
        Ok(specified_text(symbols, padding, input))
    }
}

/// The bytes that the encoding over `symbols` reads from `text`, whitespace
/// passed over, or why it reads none.
pub open spec fn custom_decoded(symbols: Seq<char>, padding: Option<char>, text: Seq<char>) -> Result<
    Seq<u8>,
    EngineError,
> {
    if wire_of(text).len() <= decode_limit() && !alphabet_accepted(symbols, padding) {
        Err(EngineError::MalformedInput(MalformedReason::Alphabet))
    } else {
        decoded_wire(wire_of(text), specified_bytes(symbols, padding, wire_of(text)))
    }
}

/// The encoding over `alphabet` for a base of `base_len` symbols. Whether the
/// alphabet can be used is decided when the encoding is applied.
pub fn get_custom_encoding(base_len: usize, alphabet: &str) -> (r: CustomEncoding)
    ensures
        r.symbols@ == alphabet@,
        r.padding == custom_padding(base_len as nat),
{
    let padding = if base_len == 32 || base_len == 64 {
        Some('=')
    } else {
        None
    };
    CustomEncoding { symbols: alphabet.to_owned(), padding }
}

impl CustomEncoding {
    /// Encodes `input` over this alphabet.
    pub fn encode(&self, input: &[u8]) -> (r: Result<String, EngineError>)
        ensures
            text_outcome(r) == custom_encoded(self.symbols@, self.padding, input@),
    {
        if input.len() > usize::MAX / 512 {
            return Err(EngineError::MalformedInput(MalformedReason::TooLong));
        }
        match specified_encode(self.symbols.as_str(), self.padding, input) {
            Some(text) => Ok(text),
            None => Err(EngineError::MalformedInput(MalformedReason::Alphabet)),
        }
    }

    /// Decodes `text` over this alphabet, whitespace passed over.
    pub fn decode(&self, text: &str) -> (r: Result<Vec<u8>, EngineError>)
        ensures
            bytes_outcome(r) == custom_decoded(self.symbols@, self.padding, text@),
    {
        let clean = clean_whitespace(text);
        let wire = clean.as_str().as_bytes();
        if wire.len() > usize::MAX / 8 {
            return Err(EngineError::MalformedInput(MalformedReason::TooLong));
        }
        match specified_decode(self.symbols.as_str(), self.padding, wire) {
            Some(read) => lift(read),
            None => Err(EngineError::MalformedInput(MalformedReason::Alphabet)),
        }
    }
}

} // verus!
