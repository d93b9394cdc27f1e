//! Text encodings across the numeral bases 16, 32, 58, 62, 64, 85 and 91.
//!
//! `basex_encode` turns the UTF-8 bytes of a text into the digits of a base;
//! `basex_decode` reads such digits back and returns the text they hold.

use vstd::prelude::*;
use vstd::string::StrSliceExecFns;
use vstd::utf8::encode_utf8;
use crate::big_integer::{
    decode_positional,
    encode_positional,
    leading_run,
    lemma_standard_alphabets_usable,
    positional_decoded,
    positional_encoded,
    positional_read,
    positional_text,
    BASE58_ALPHABET,
    BASE62_ALPHABET,
};
use crate::error::{bytes_outcome, text_outcome, EngineError};
use crate::fixed_width::{
    base32_decoded,
    base32_encoded,
    base64_decoded,
    base64_encoded,
    custom_decoded,
    custom_encoded,
    custom_padding,
    decode_base32_to_bytes,
    decode_base64_to_bytes,
    decode_hex_to_bytes,
    encode_base32,
    encode_base64,
    encode_hex,
    get_custom_encoding,
    hex_decoded,
    hex_encoded,
    hex_text,
    lemma_hex_round_trip,
};
use crate::static_table::{
    base85_decoded,
    base85_encoded,
    base91_bytes,
    base91_encoded,
    decode_base85,
    decode_base91,
    encode_base85,
    encode_base91,
};
use crate::text::{
    clean_whitespace,
    lemma_nothing_to_strip,
    lemma_text_of_own_bytes,
    str_equal,
    text_or_failure,
    utf8_text,
    without_whitespace,
};

verus! {

/// The numeral bases that the codec knows.
#[derive(Clone, Copy, Debug, PartialEq, Eq, Structural)]
pub enum Base {
    Base16,
    Base32,
    Base58,
    Base62,
    Base64,
    Base85,
    Base91,
}

impl Base {
    /// The number of symbols in the alphabet of the base.
    pub open spec fn radix(self) -> nat {
        match self {
            Base::Base16 => 16,
            Base::Base32 => 32,
            Base::Base58 => 58,
            Base::Base62 => 62,
            Base::Base64 => 64,
            Base::Base85 => 85,
            Base::Base91 => 91,
        }
    }

    /// Whether the base packs a fixed number of bits into each symbol.
    pub open spec fn is_fixed_width(self) -> bool {
        self == Base::Base16 || self == Base::Base32 || self == Base::Base64
    }

    /// The number of symbols in the alphabet of the base.
    pub fn symbol_count(self) -> (r: usize)
        ensures
            r == self.radix(),
    {
        match self {
            Base::Base16 => 16,
            Base::Base32 => 32,
            Base::Base58 => 58,
            Base::Base62 => 62,
            Base::Base64 => 64,
            Base::Base85 => 85,
            Base::Base91 => 91,
        }
    }
}

/// The base that `name` spells, if any. The names are `base16`, `base32`,
/// `base58`, `base62`, `base64`, `base85` and `base91`.
pub open spec fn base_named(name: Seq<char>) -> Option<Base> {
    if name == "base16"@ {
        Some(Base::Base16)
    } else if name == "base32"@ {
        Some(Base::Base32)
    } else if name == "base58"@ {
        Some(Base::Base58)
    } else if name == "base62"@ {
        Some(Base::Base62)
    } else if name == "base64"@ {
        Some(Base::Base64)
    } else if name == "base85"@ {
        Some(Base::Base85)
    } else if name == "base91"@ {
        Some(Base::Base91)
    } else {
        None
    }
}

/// Reads the name of a base.
pub fn parse_base(name: &str) -> (r: Option<Base>)
    ensures
        r == base_named(name@),
{
    if str_equal(name, "base16") {
        Some(Base::Base16)
    } else if str_equal(name, "base32") {
        Some(Base::Base32)
    } else if str_equal(name, "base58") {
        Some(Base::Base58)
    } else if str_equal(name, "base62") {
        Some(Base::Base62)
    } else if str_equal(name, "base64") {
        Some(Base::Base64)
    } else if str_equal(name, "base85") {
        Some(Base::Base85)
    } else if str_equal(name, "base91") {
        Some(Base::Base91)
    } else {
        None
    }
}

/// The alphabet that a request asks for: an empty one asks for none.
pub open spec fn requested_alphabet(alphabet: Option<String>) -> Option<Seq<char>> {
    match alphabet {
        Some(a) => if a@.len() == 0 {
            None
        } else {
            Some(a@)
        },
        None => None,
    }
}

/// What a refused fixed-width alphabet is told: the base, the number of
/// symbols it needs and the number that came.
pub open spec fn length_mismatch(base: Base, alphabet: Seq<char>) -> EngineError {
    EngineError::AlphabetLengthMismatch {
        base,
        expected: base.radix() as usize,
        actual: alphabet.len() as usize,
    }
}

/// The digits of `input` in `base` under its standard alphabet.
pub open spec fn encoded_standard(base: Base, input: Seq<u8>) -> Result<Seq<char>, EngineError> {
    match base {
        Base::Base16 => hex_encoded(input),
        Base::Base32 => base32_encoded(input),
        Base::Base58 => Ok(positional_text(BASE58_ALPHABET@, input)),
        Base::Base62 => Ok(positional_text(BASE62_ALPHABET@, input)),
        Base::Base64 => base64_encoded(input),
        Base::Base85 => base85_encoded(input),
        Base::Base91 => base91_encoded(input),
    }
}

/// The digits of `input` in `base` under the alphabet that the caller
/// supplied.
pub open spec fn encoded_custom(base: Base, alphabet: Seq<char>, input: Seq<u8>) -> Result<
    Seq<char>,
    EngineError,
> {
    match base {
        Base::Base16 | Base::Base32 | Base::Base64 => if alphabet.len() != base.radix() {
            Err(length_mismatch(base, alphabet))
        } else {
            custom_encoded(alphabet, custom_padding(base.radix()), input)
        },
        Base::Base58 | Base::Base62 => positional_encoded(alphabet, input),
        Base::Base85 | Base::Base91 => Err(EngineError::CustomAlphabetUnsupported { base }),
    }
}

/// The alphabet that a big-integer base works in: the one that the caller
/// supplied, else the standard one.
pub open spec fn positional_alphabet(base: Base, alphabet: Option<Seq<char>>) -> Seq<char> {
    match alphabet {
        Some(a) => a,
        None => if base == Base::Base58 {
            BASE58_ALPHABET@
        } else {
            BASE62_ALPHABET@
        },
    }
}

/// What `basex_encode` returns.
pub open spec fn encoded(input: Seq<char>, base: Seq<char>, alphabet: Option<Seq<char>>) -> Result<
    Seq<char>,
    EngineError,
> {
    match base_named(base) {
        None => Err(EngineError::UnknownBase),
        Some(b) => match alphabet {
            Some(a) => encoded_custom(b, a, encode_utf8(input)),
            None => encoded_standard(b, encode_utf8(input)),
        },
    }
}

/// The bytes that `text` holds in `base` under its standard alphabet.
/// Whitespace is passed over in every base but 91.
pub open spec fn decoded_standard(base: Base, text: Seq<char>) -> Result<Seq<u8>, EngineError> {
    match base {
        Base::Base16 => hex_decoded(text),
        Base::Base32 => base32_decoded(text),
        Base::Base58 => positional_read(BASE58_ALPHABET@, without_whitespace(text)),
        Base::Base62 => positional_read(BASE62_ALPHABET@, without_whitespace(text)),
        Base::Base64 => base64_decoded(text),
        Base::Base85 => base85_decoded(encode_utf8(without_whitespace(text))),
        Base::Base91 => Ok(base91_bytes(encode_utf8(text))),
    }
}

/// The bytes that `text` holds in `base` under the alphabet that the caller
/// supplied. Whitespace is passed over.
pub open spec fn decoded_custom(base: Base, alphabet: Seq<char>, text: Seq<char>) -> Result<
    Seq<u8>,
    EngineError,
> {
    match base {
        Base::Base16 | Base::Base32 | Base::Base64 => if alphabet.len() != base.radix() {
            Err(length_mismatch(base, alphabet))
        } else {
            custom_decoded(alphabet, custom_padding(base.radix()), text)
        },
        Base::Base58 | Base::Base62 => positional_decoded(alphabet, without_whitespace(text)),
        Base::Base85 | Base::Base91 => Err(EngineError::CustomAlphabetUnsupported { base }),
    }
}

/// The text that decoded bytes hold, if they are UTF-8.
pub open spec fn as_text(bytes: Result<Seq<u8>, EngineError>) -> Result<Seq<char>, EngineError> {
    match bytes {
        Ok(b) => text_or_failure(b),
        Err(e) => Err(e),
    }
}

/// What `basex_decode` returns.
pub open spec fn decoded(text: Seq<char>, base: Seq<char>, alphabet: Option<Seq<char>>) -> Result<
    Seq<char>,
    EngineError,
> {
    match base_named(base) {
        None => Err(EngineError::UnknownBase),
        Some(b) => match alphabet {
            Some(a) => as_text(decoded_custom(b, a, text)),
            None => as_text(decoded_standard(b, text)),
        },
    }
}

/// Picks the alphabet that a request asks for.
fn requested(alphabet: &Option<String>) -> (r: Option<&str>)
    ensures
        match r {
            Some(a) => requested_alphabet(*alphabet) == Some(a@),
            None => requested_alphabet(*alphabet) is None,
        },
{
    match alphabet {
        Some(a) => {
            let text: &str = a.as_str();
            if text.is_empty() {
                None
            } else {
                Some(text)
            }
        },
        None => None,
    }
}

/// Encodes the UTF-8 bytes of `input` in the base that `base` names, under
/// `alphabet` if one is given and not empty, else under the standard
/// alphabet of the base.
///
/// Under the standard alphabet of base 16, 32 or 64 the text that comes back
/// decodes to `input`. In base 58 and 62 the text starts with the first
/// symbol of the alphabet at least once for each leading zero byte.
pub fn basex_encode(input: String, base: String, alphabet: Option<String>) -> (r: Result<
    String,
    EngineError,
>)
    ensures
        text_outcome(r) == encoded(input@, base@, requested_alphabet(alphabet)),
        r matches Ok(text) ==> (base_named(base@) matches Some(b) && b.is_fixed_width()
            && requested_alphabet(alphabet) is None) ==> decoded(text@, base@, None) == Ok::<
            Seq<char>,
            EngineError,
        >(input@),
        r matches Ok(text) ==> (base_named(base@) matches Some(b) && (b == Base::Base58 || b
            == Base::Base62)) ==> leading_run(
            text@,
            positional_alphabet(base_named(base@)->0, requested_alphabet(alphabet))[0],
        ) >= leading_run(encode_utf8(input@), 0u8),
{
    let bytes: &[u8] = input.as_str().as_bytes();
    let which: Base = match parse_base(base.as_str()) {
        Some(b) => b,
        None => {
            return Err(EngineError::UnknownBase);
        },
    };
    if let Some(alpha) = requested(&alphabet) {
        return match which {
            Base::Base16 | Base::Base32 | Base::Base64 => {
                let expected: usize = which.symbol_count();
                let actual: usize = alpha.unicode_len();
                if actual != expected {
                    return Err(
                        EngineError::AlphabetLengthMismatch { base: which, expected, actual },
                    );
                }
                get_custom_encoding(expected, alpha).encode(bytes)
            },
            Base::Base58 | Base::Base62 => encode_positional(alpha, bytes),
            Base::Base85 | Base::Base91 => Err(
                EngineError::CustomAlphabetUnsupported { base: which },
            ),
        };
    }
    proof {
        lemma_text_of_own_bytes(input@);
        lemma_standard_alphabets_usable();
    }
    match which {
        Base::Base16 => encode_hex(bytes),
        Base::Base32 => encode_base32(bytes),
        Base::Base58 => encode_positional(BASE58_ALPHABET, bytes),
        Base::Base62 => encode_positional(BASE62_ALPHABET, bytes),
        Base::Base64 => encode_base64(bytes),
        Base::Base85 => encode_base85(bytes),
        Base::Base91 => encode_base91(bytes),
    }
}

/// The bytes that `input` holds in `which`, under `alpha` if one is given.
fn decode_to_bytes(input: &str, which: Base, alpha: Option<&str>) -> (r: Result<
    Vec<u8>,
    EngineError,
>)
    ensures
        bytes_outcome(r) == match alpha {
            Some(a) => decoded_custom(which, a@, input@),
            None => decoded_standard(which, input@),
        },
{
    if let Some(a) = alpha {
        return match which {
            Base::Base16 | Base::Base32 | Base::Base64 => {
                let expected: usize = which.symbol_count();
                let actual: usize = a.unicode_len();
                if actual != expected {
                    return Err(
                        EngineError::AlphabetLengthMismatch { base: which, expected, actual },
                    );
                }
                get_custom_encoding(expected, a).decode(input)
            },
            Base::Base58 | Base::Base62 => {
                let clean = clean_whitespace(input);
                decode_positional(a, clean.as_str())
            },
            Base::Base85 | Base::Base91 => Err(
                EngineError::CustomAlphabetUnsupported { base: which },
            ),
        };
    }
    proof {
        lemma_standard_alphabets_usable();
    }
    match which {
        Base::Base16 => decode_hex_to_bytes(input),
        Base::Base32 => decode_base32_to_bytes(input),
        Base::Base58 => {
            let clean = clean_whitespace(input);
            decode_positional(BASE58_ALPHABET, clean.as_str())
        },
        Base::Base62 => {
            let clean = clean_whitespace(input);
            decode_positional(BASE62_ALPHABET, clean.as_str())
        },
        Base::Base64 => decode_base64_to_bytes(input),
        Base::Base85 => {
            let clean = clean_whitespace(input);
            decode_base85(clean.as_str())
        },
        Base::Base91 => Ok(decode_base91(input.as_bytes())),
    }
}

/// Decodes `input`, written in the base that `base` names, under `alphabet`
/// if one is given and not empty, else under the standard alphabet of the
/// base, and returns the text that the decoded bytes hold.
///
/// Whitespace in `input` is passed over, except in base 91. Bytes that are
/// not UTF-8 are an error of their own.
pub fn basex_decode(input: String, base: String, alphabet: Option<String>) -> (r: Result<
    String,
    EngineError,
>)
    ensures
        text_outcome(r) == decoded(input@, base@, requested_alphabet(alphabet)),
{
    let which: Base = match parse_base(base.as_str()) {
        Some(b) => b,
        None => {
            return Err(EngineError::UnknownBase);
        },
    };
    let bytes = decode_to_bytes(input.as_str(), which, requested(&alphabet))?;
    utf8_text(bytes)
}

/// The seven names of the bases, each read as its base.
pub proof fn lemma_base_names()
    ensures
        base_named("base16"@) == Some(Base::Base16),
        base_named("base32"@) == Some(Base::Base32),
        base_named("base58"@) == Some(Base::Base58),
        base_named("base62"@) == Some(Base::Base62),
        base_named("base64"@) == Some(Base::Base64),
        base_named("base85"@) == Some(Base::Base85),
        base_named("base91"@) == Some(Base::Base91),
{
    reveal_strlit("base16");
    reveal_strlit("base32");
    reveal_strlit("base58");
    reveal_strlit("base62");
    reveal_strlit("base64");
    reveal_strlit("base85");
    reveal_strlit("base91");
    assert("base16"@[4] == '1' && "base16"@[5] == '6');
    assert("base32"@[4] == '3' && "base32"@[5] == '2');
    assert("base58"@[4] == '5' && "base58"@[5] == '8');
    assert("base62"@[4] == '6' && "base62"@[5] == '2');
    assert("base64"@[4] == '6' && "base64"@[5] == '4');
    assert("base85"@[4] == '8' && "base85"@[5] == '5');
    assert("base91"@[4] == '9' && "base91"@[5] == '1');
}

/// In base 16 under the standard alphabet, whatever text is encoded, decoding
/// the digits gives it back.
pub proof fn lemma_base16_round_trip(input: Seq<char>)
    ensures
        encoded(input, "base16"@, None) matches Ok(text) ==> decoded(text, "base16"@, None)
            == Ok::<Seq<char>, EngineError>(input),
{
    lemma_base_names();
    let bytes = encode_utf8(input);
    lemma_hex_round_trip(bytes);
    lemma_nothing_to_strip(hex_text(bytes));
    lemma_text_of_own_bytes(input);
}

/// Base 85 and base 91 take no alphabet from the caller: whatever the input,
/// a request that brings one fails, in both directions.
pub proof fn lemma_static_tables_refuse_alphabets(input: Seq<char>, alphabet: Seq<char>)
    ensures
        encoded(input, "base85"@, Some(alphabet)) == Err::<Seq<char>, EngineError>(
            EngineError::CustomAlphabetUnsupported { base: Base::Base85 },
        ),
        encoded(input, "base91"@, Some(alphabet)) == Err::<Seq<char>, EngineError>(
            EngineError::CustomAlphabetUnsupported { base: Base::Base91 },
        ),
        decoded(input, "base85"@, Some(alphabet)) == Err::<Seq<char>, EngineError>(
            EngineError::CustomAlphabetUnsupported { base: Base::Base85 },
        ),
        decoded(input, "base91"@, Some(alphabet)) == Err::<Seq<char>, EngineError>(
            EngineError::CustomAlphabetUnsupported { base: Base::Base91 },
        ),
{
    lemma_base_names();
}

/// A fixed-width base takes an alphabet of exactly as many characters as its
/// radix: whatever the input, any other number fails, in both directions,
/// and the failure names the base, its radix and the number that came.
pub proof fn lemma_alphabet_length_is_checked(
    input: Seq<char>,
    name: Seq<char>,
    alphabet: Seq<char>,
)
    requires
        base_named(name) matches Some(base) && base.is_fixed_width(),
        alphabet.len() != base_named(name)->0.radix(),
    ensures
        encoded(input, name, Some(alphabet)) == Err::<Seq<char>, EngineError>(
            length_mismatch(base_named(name)->0, alphabet),
        ),
        decoded(input, name, Some(alphabet)) == Err::<Seq<char>, EngineError>(
            length_mismatch(base_named(name)->0, alphabet),
        ),
{
}

} // verus!
