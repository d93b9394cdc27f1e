//! Encryption and decryption of text under SM4: key and IV resolution, the
//! padding layer, the mode layer, and the wire format of the ciphertext.

use vstd::prelude::*;
use vstd::utf8::encode_utf8;
use crate::error::{bytes_outcome, text_outcome, EngineError};
use crate::fixed_width::{
    base64_decoded,
    base64_encoded,
    decode_base64_to_bytes,
    decode_hex_to_bytes,
    encode_base64,
    encode_hex,
    hex_decoded,
    hex_encoded,
};
use crate::modes::{
    decrypt_with_mode,
    encrypt_with_mode,
    iv_bytes,
    iv_or_empty,
    mode_decrypted,
    mode_encrypted,
    mode_outcome,
    needs_iv,
    Sm4Mode,
};
use crate::padding::{
    apply_padding,
    padded,
    remove_padding,
    unpadded,
    Sm4Padding,
};
use crate::text::{field_text, text_or_failure, utf8_text};

verus! {

/// How ciphertext is written as text.
#[derive(Clone, Copy, Debug, PartialEq, Eq, Structural)]
pub enum Sm4Format {
    Hex,
    Base64,
}

/// How a key or an initialisation vector is given.
#[derive(Clone, Copy, Debug, PartialEq, Eq, Structural)]
pub enum Sm4KeyType {
    /// The 16 bytes are the UTF-8 bytes of the text.
    Text,
    /// The 16 bytes are written as 32 hexadecimal digits.
    Hex,
}

/// Which secret of a cipher request is meant.
#[derive(Clone, Copy, Debug, PartialEq, Eq, Structural)]
pub enum KeyField {
    Key,
    Iv,
}

/// One request to encrypt or to decrypt.
#[derive(Debug)]
pub struct Sm4Request {
    /// The plaintext when encrypting, the ciphertext in `format` when
    /// decrypting.
    pub input: String,
    pub mode: Sm4Mode,
    pub padding: Sm4Padding,
    /// The format of the output when encrypting, of the input when
    /// decrypting.
    pub format: Sm4Format,
    pub key: String,
    pub key_type: Sm4KeyType,
    pub iv: Option<String>,
    pub iv_type: Option<Sm4KeyType>,
}

/// The ciphertext that `input` holds in `format`.
pub open spec fn cipher_input(input: Seq<char>, format: Sm4Format) -> Result<Seq<u8>, EngineError> {
    match format {
        Sm4Format::Hex => hex_decoded(input),
        Sm4Format::Base64 => base64_decoded(input),
    }
}

/// Reads ciphertext written in `format`.
pub fn decode_cipher_input(input: &str, format: Sm4Format) -> (r: Result<Vec<u8>, EngineError>)
    ensures
        bytes_outcome(r) == cipher_input(input@, format),
{
    match format {
        Sm4Format::Hex => decode_hex_to_bytes(input),
        Sm4Format::Base64 => decode_base64_to_bytes(input),
    }
}

/// `bytes` written in `format`: lowercase hexadecimal, or padded base 64.
pub open spec fn formatted(bytes: Seq<u8>, format: Sm4Format) -> Result<Seq<char>, EngineError> {
    match format {
        Sm4Format::Hex => hex_encoded(bytes),
        Sm4Format::Base64 => base64_encoded(bytes),
    }
}

/// Writes ciphertext in `format`.
pub fn encode_bytes(bytes: &[u8], format: Sm4Format) -> (r: Result<String, EngineError>)
    ensures
        text_outcome(r) == formatted(bytes@, format),
{
    match format {
        Sm4Format::Hex => encode_hex(bytes),
        Sm4Format::Base64 => encode_base64(bytes),
    }
}

/// The bytes that `value` gives under `ty`, before their number is looked
/// at.
pub open spec fn secret_bytes(value: Seq<char>, ty: Sm4KeyType) -> Result<Seq<u8>, EngineError> {
    match ty {
        Sm4KeyType::Hex => hex_decoded(value),
        Sm4KeyType::Text => Ok(encode_utf8(value)),
    }
}

/// The 16 bytes of a key or an initialisation vector, or why `value` does not
/// give them.
pub open spec fn fixed_16(value: Seq<char>, ty: Sm4KeyType, field: KeyField) -> Result<
    Seq<u8>,
    EngineError,
> {
    match secret_bytes(value, ty) {
        Err(e) => Err(e),
        Ok(bytes) => if bytes.len() == 16 {
            Ok(bytes)
        } else {
            Err(
                EngineError::WrongKeyOrIvLength {
                    field,
                    expected: 16,
                    actual: bytes.len() as usize,
                },
            )
        },
    }
}

/// Copies 16 bytes into a block.
fn block_of(bytes: &[u8]) -> (r: [u8; 16])
    requires
        bytes@.len() == 16,
    ensures
        r@ == bytes@,
{
    let mut out = [0u8;16];
    let mut i: usize = 0;
    while i < 16
        invariant
            i <= 16,
            bytes@.len() == 16,
            forall|j: int| 0 <= j < i ==> out@[j] == bytes@[j],
        decreases 16 - i,
    {
        out[i] = bytes[i];
        i = i + 1;
    }
    assert(out@ =~= bytes@);
    out
}

/// What a block result says in contracts.
pub open spec fn block_outcome(r: Result<[u8; 16], EngineError>) -> Result<Seq<u8>, EngineError> {
    match r {
        Ok(block) => Ok(block@),
        Err(e) => Err(e),
    }
}

/// Resolves a key or an initialisation vector to its 16 bytes: the UTF-8
/// bytes of the text, or the bytes that its hexadecimal digits write. Any
/// other number of bytes is an error that names the field and the number.
pub fn parse_fixed_16(value: &str, ty: Sm4KeyType, field: KeyField) -> (r: Result<
    [u8; 16],
    EngineError,
>)
    ensures
        block_outcome(r) == fixed_16(value@, ty, field),
{
    match ty {
        Sm4KeyType::Hex => {
            let bytes = decode_hex_to_bytes(value)?;
            if bytes.len() != 16 {
                return Err(
                    EngineError::WrongKeyOrIvLength { field, expected: 16, actual: bytes.len() },
                );
            }
            Ok(block_of(bytes.as_slice()))
        },
        Sm4KeyType::Text => {
            let bytes = value.as_bytes();
            if bytes.len() != 16 {
                return Err(
                    EngineError::WrongKeyOrIvLength { field, expected: 16, actual: bytes.len() },
                );
            }
            Ok(block_of(bytes))
        },
    }
}

/// Whether `mode` takes an initialisation vector.
pub fn require_iv(mode: Sm4Mode) -> (r: bool)
    ensures
        r == needs_iv(mode),
{
    match mode {
        Sm4Mode::Ecb => false,
        _ => true,
    }
}

/// The ciphertext of `plaintext`: padded, then run through the mode.
pub open spec fn encrypted_bytes(
    plaintext: Seq<u8>,
    key: Seq<u8>,
    iv: Option<Seq<u8>>,
    mode: Sm4Mode,
    padding: Sm4Padding,
) -> Result<Seq<u8>, EngineError> {
    match padded(plaintext, padding) {
        Err(e) => Err(e),
        Ok(whole) => mode_outcome(mode, iv, whole, mode_encrypted(mode, key, iv_or_empty(iv), whole)),
    }
}

/// The plaintext of `ciphertext`: run through the mode, then stripped of its
/// padding.
pub open spec fn decrypted_bytes(
    ciphertext: Seq<u8>,
    key: Seq<u8>,
    iv: Option<Seq<u8>>,
    mode: Sm4Mode,
    padding: Sm4Padding,
) -> Result<Seq<u8>, EngineError> {
    match mode_outcome(
        mode,
        iv,
        ciphertext,
        mode_decrypted(mode, key, iv_or_empty(iv), ciphertext),
    ) {
        Err(e) => Err(e),
        Ok(whole) => unpadded(whole, padding),
    }
}

/// Under PKCS7, ciphertext that decrypts to a buffer whose last byte is zero
/// or above 16 is refused for its padding, never cut short.
pub proof fn lemma_decrypt_rejects_bad_padding(
    ciphertext: Seq<u8>,
    key: Seq<u8>,
    iv: Option<Seq<u8>>,
    mode: Sm4Mode,
)
    requires
        mode_outcome(
            mode,
            iv,
            ciphertext,
            mode_decrypted(mode, key, iv_or_empty(iv), ciphertext),
        ) matches Ok(whole) && whole.len() > 0 && (whole.last() == 0u8 || whole.last() > 16u8),
    ensures
        decrypted_bytes(ciphertext, key, iv, mode, Sm4Padding::Pkcs7) == Err::<
            Seq<u8>,
            EngineError,
        >(EngineError::InvalidPkcs7Padding),
{
}

/// Pads `plaintext` and encrypts it under `key` in `mode`. The ciphertext is
/// as long as the padded plaintext.
pub fn sm4_encrypt_bytes(
    plaintext: &[u8],
    key: [u8; 16],
    iv: Option<[u8; 16]>,
    mode: Sm4Mode,
    padding: Sm4Padding,
) -> (r: Result<Vec<u8>, EngineError>)
    ensures
        bytes_outcome(r) == encrypted_bytes(plaintext@, key@, iv_bytes(iv), mode, padding),
        r matches Ok(ciphertext) ==> padded(plaintext@, padding) matches Ok(whole)
            && ciphertext@.len() == whole.len(),
{
    let whole = apply_padding(vstd::slice::slice_to_vec(plaintext), padding)?;
    encrypt_with_mode(mode, &key, iv, whole)
}

/// Decrypts `ciphertext` under `key` in `mode` and removes the padding.
pub fn sm4_decrypt_bytes(
    ciphertext: &[u8],
    key: [u8; 16],
    iv: Option<[u8; 16]>,
    mode: Sm4Mode,
    padding: Sm4Padding,
) -> (r: Result<Vec<u8>, EngineError>)
    ensures
        bytes_outcome(r) == decrypted_bytes(ciphertext@, key@, iv_bytes(iv), mode, padding),
{
    let whole = decrypt_with_mode(mode, &key, iv, vstd::slice::slice_to_vec(ciphertext))?;
    remove_padding(whole, padding)
}

/// The initialisation vector of a request: none for a mode that takes none,
/// whatever the request holds; else the 16 bytes that `iv` gives under
/// `iv_type`, both of which must be there.
pub open spec fn request_iv(
    mode: Sm4Mode,
    iv: Option<Seq<char>>,
    iv_type: Option<Sm4KeyType>,
) -> Result<Option<Seq<u8>>, EngineError> {
    if !needs_iv(mode) {
        Ok(None)
    } else {
        match iv {
            None => Err(EngineError::MissingIv(mode)),
            Some(value) => match iv_type {
                None => Err(EngineError::MissingIvType),
                Some(ty) => match fixed_16(value, ty, KeyField::Iv) {
                    Ok(bytes) => Ok(Some(bytes)),
                    Err(e) => Err(e),
                },
            },
        }
    }
}

/// What `sm4_encrypt` returns: the key is resolved, then the initialisation
/// vector, then the UTF-8 bytes of the input are encrypted and written in
/// the requested format.
pub open spec fn encrypted(request: Sm4Request) -> Result<Seq<char>, EngineError> {
    match fixed_16(request.key@, request.key_type, KeyField::Key) {
        Err(e) => Err(e),
        Ok(key) => match request_iv(request.mode, field_text(request.iv), request.iv_type) {
            Err(e) => Err(e),
            Ok(iv) => match encrypted_bytes(
                encode_utf8(request.input@),
                key,
                iv,
                request.mode,
                request.padding,
            ) {
                Err(e) => Err(e),
                Ok(ciphertext) => formatted(ciphertext, request.format),
            },
        },
    }
}

/// What `sm4_decrypt` returns: the key is resolved, then the initialisation
/// vector, then the input is read in the requested format and decrypted, and
/// the plaintext is read as UTF-8.
pub open spec fn decrypted(request: Sm4Request) -> Result<Seq<char>, EngineError> {
    match fixed_16(request.key@, request.key_type, KeyField::Key) {
        Err(e) => Err(e),
        Ok(key) => match request_iv(request.mode, field_text(request.iv), request.iv_type) {
            Err(e) => Err(e),
            Ok(iv) => match cipher_input(request.input@, request.format) {
                Err(e) => Err(e),
                Ok(ciphertext) => match decrypted_bytes(
                    ciphertext,
                    key,
                    iv,
                    request.mode,
                    request.padding,
                ) {
                    Err(e) => Err(e),
                    Ok(plaintext) => text_or_failure(plaintext),
                },
            },
        },
    }
}

/// Resolves the initialisation vector of a request.
fn resolve_iv(request: &Sm4Request) -> (r: Result<Option<[u8; 16]>, EngineError>)
    ensures
        match r {
            Ok(iv) => request_iv(request.mode, field_text(request.iv), request.iv_type) == Ok::<
                Option<Seq<u8>>,
                EngineError,
            >(iv_bytes(iv)),
            Err(e) => request_iv(request.mode, field_text(request.iv), request.iv_type) == Err::<
                Option<Seq<u8>>,
                EngineError,
            >(e),
        },
{
    if !require_iv(request.mode) {
        return Ok(None);
    }
    let value: &str = match &request.iv {
        Some(v) => v.as_str(),
        None => {
            return Err(EngineError::MissingIv(request.mode));
        },
    };
    let ty: Sm4KeyType = match request.iv_type {
        Some(t) => t,
        None => {
            return Err(EngineError::MissingIvType);
        },
    };
    match parse_fixed_16(value, ty, KeyField::Iv) {
        Ok(block) => Ok(Some(block)),
        Err(e) => Err(e),
    }
}

/// Encrypts the text of a request and returns the ciphertext in the
/// requested format.
pub fn sm4_encrypt(request: Sm4Request) -> (r: Result<String, EngineError>)
    ensures
        text_outcome(r) == encrypted(request),
{
    let key = parse_fixed_16(request.key.as_str(), request.key_type, KeyField::Key)?;
    let iv = resolve_iv(&request)?;
    let ciphertext = sm4_encrypt_bytes(
        request.input.as_str().as_bytes(),
        key,
        iv,
        request.mode,
        request.padding,
    )?;
    encode_bytes(ciphertext.as_slice(), request.format)
}

/// Decrypts the ciphertext of a request and returns the plaintext, which
/// must be UTF-8.
pub fn sm4_decrypt(request: Sm4Request) -> (r: Result<String, EngineError>)
    ensures
        text_outcome(r) == decrypted(request),
{
    let key = parse_fixed_16(request.key.as_str(), request.key_type, KeyField::Key)?;
    let iv = resolve_iv(&request)?;
    let ciphertext = decode_cipher_input(request.input.as_str(), request.format)?;
    let plaintext = sm4_decrypt_bytes(
        ciphertext.as_slice(),
        key,
        iv,
        request.mode,
        request.padding,
    )?;
    utf8_text(plaintext)
}

} // verus!
