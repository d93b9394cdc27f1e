//! The five modes of operation over the SM4 block cipher.
//!
//! The cipher and the modes are the work of the `sm4`, `ecb`, `cbc`,
//! `cfb-mode`, `ofb` and `ctr` crates. Each transform is a function of key,
//! initialisation vector and data alone; this module gives each a name and
//! says on which lengths the block modes refuse to work.

use vstd::prelude::*;
use cipher::block_padding::NoPadding;
use cipher::{AsyncStreamCipher, BlockDecryptMut, BlockEncryptMut, KeyInit, KeyIvInit, StreamCipher};
use crate::error::{bytes_outcome, EngineError};

verus! {

/// The five ways in which the block cipher is chained over a message.
#[derive(Clone, Copy, Debug, PartialEq, Eq, Structural)]
pub enum Sm4Mode {
    Ecb,
    Cbc,
    Cfb,
    Ofb,
    Ctr,
}

/// SM4 in ECB mode over whole blocks, encrypting.
pub uninterp spec fn sm4_ecb_encrypted(key: Seq<u8>, data: Seq<u8>) -> Seq<u8>;

/// SM4 in ECB mode over whole blocks, decrypting.
pub uninterp spec fn sm4_ecb_decrypted(key: Seq<u8>, data: Seq<u8>) -> Seq<u8>;

/// SM4 in CBC mode over whole blocks, encrypting.
pub uninterp spec fn sm4_cbc_encrypted(key: Seq<u8>, iv: Seq<u8>, data: Seq<u8>) -> Seq<u8>;

/// SM4 in CBC mode over whole blocks, decrypting.
pub uninterp spec fn sm4_cbc_decrypted(key: Seq<u8>, iv: Seq<u8>, data: Seq<u8>) -> Seq<u8>;

/// SM4 in full-block CFB mode, encrypting.
pub uninterp spec fn sm4_cfb_encrypted(key: Seq<u8>, iv: Seq<u8>, data: Seq<u8>) -> Seq<u8>;

/// SM4 in full-block CFB mode, decrypting.
pub uninterp spec fn sm4_cfb_decrypted(key: Seq<u8>, iv: Seq<u8>, data: Seq<u8>) -> Seq<u8>;

/// `data` under the keystream of SM4 in OFB mode.
pub uninterp spec fn sm4_ofb_applied(key: Seq<u8>, iv: Seq<u8>, data: Seq<u8>) -> Seq<u8>;

/// `data` under the keystream of SM4 in CTR mode, the counter being the
/// whole block, big-endian, starting at the initialisation vector.
pub uninterp spec fn sm4_ctr_applied(key: Seq<u8>, iv: Seq<u8>, data: Seq<u8>) -> Seq<u8>;

/// `ecb::Encryptor::<Sm4>`, made by `KeyInit::new` and run by
/// `BlockEncryptMut::encrypt_padded_mut` without padding, which works in
/// place and refuses a buffer that is not a whole number of blocks.
#[verifier::external_body]
fn ecb_encrypt(key: &[u8; 16], data: Vec<u8>) -> (r: Option<Vec<u8>>)
    ensures
        r is Some <==> data@.len() % 16 == 0,
        r matches Some(out) ==> out@ == sm4_ecb_encrypted(key@, data@),
        r matches Some(out) ==> out@.len() == data@.len(),
{
    let mut buf = data;
    let len = buf.len();
    let cipher = ecb::Encryptor::<::sm4::Sm4>::new(&(*key).into());
    cipher.encrypt_padded_mut::<NoPadding>(&mut buf, len).ok().map(|out| out.to_vec())
}

/// `ecb::Decryptor::<Sm4>`, made by `KeyInit::new` and run by
/// `BlockDecryptMut::decrypt_padded_mut` without padding, which works in
/// place and refuses a buffer that is not a whole number of blocks.
#[verifier::external_body]
fn ecb_decrypt(key: &[u8; 16], data: Vec<u8>) -> (r: Option<Vec<u8>>)
    ensures
        r is Some <==> data@.len() % 16 == 0,
        r matches Some(out) ==> out@ == sm4_ecb_decrypted(key@, data@),
        r matches Some(out) ==> out@.len() == data@.len(),
{
    let mut buf = data;
    let cipher = ecb::Decryptor::<::sm4::Sm4>::new(&(*key).into());
    cipher.decrypt_padded_mut::<NoPadding>(&mut buf).ok().map(|out| out.to_vec())
}

/// `cbc::Encryptor::<Sm4>`, made by `KeyIvInit::new` and run by
/// `BlockEncryptMut::encrypt_padded_mut` without padding, which works in
/// place and refuses a buffer that is not a whole number of blocks.
#[verifier::external_body]
fn cbc_encrypt(key: &[u8; 16], iv: &[u8; 16], data: Vec<u8>) -> (r: Option<Vec<u8>>)
    ensures
        r is Some <==> data@.len() % 16 == 0,
        r matches Some(out) ==> out@ == sm4_cbc_encrypted(key@, iv@, data@),
        r matches Some(out) ==> out@.len() == data@.len(),
{
    let mut buf = data;
    let len = buf.len();
    let cipher = cbc::Encryptor::<::sm4::Sm4>::new(&(*key).into(), &(*iv).into());
    cipher.encrypt_padded_mut::<NoPadding>(&mut buf, len).ok().map(|out| out.to_vec())
}

/// `cbc::Decryptor::<Sm4>`, made by `KeyIvInit::new` and run by
/// `BlockDecryptMut::decrypt_padded_mut` without padding, which works in
/// place and refuses a buffer that is not a whole number of blocks.
#[verifier::external_body]
fn cbc_decrypt(key: &[u8; 16], iv: &[u8; 16], data: Vec<u8>) -> (r: Option<Vec<u8>>)
    ensures
        r is Some <==> data@.len() % 16 == 0,
        r matches Some(out) ==> out@ == sm4_cbc_decrypted(key@, iv@, data@),
        r matches Some(out) ==> out@.len() == data@.len(),
{
    let mut buf = data;
    let cipher = cbc::Decryptor::<::sm4::Sm4>::new(&(*key).into(), &(*iv).into());
    cipher.decrypt_padded_mut::<NoPadding>(&mut buf).ok().map(|out| out.to_vec())
}

/// `cfb_mode::Encryptor::<Sm4>`, made by `KeyIvInit::new` and run by
/// `AsyncStreamCipher::encrypt`, which works in place on any length.
#[verifier::external_body]
fn cfb_encrypt(key: &[u8; 16], iv: &[u8; 16], data: Vec<u8>) -> (r: Vec<u8>)
    ensures
        r@ == sm4_cfb_encrypted(key@, iv@, data@),
        r@.len() == data@.len(),
{
    let mut buf = data;
    cfb_mode::Encryptor::<::sm4::Sm4>::new(&(*key).into(), &(*iv).into()).encrypt(&mut buf);
    buf
}

/// `cfb_mode::Decryptor::<Sm4>`, made by `KeyIvInit::new` and run by
/// `AsyncStreamCipher::decrypt`, which works in place on any length.
#[verifier::external_body]
fn cfb_decrypt(key: &[u8; 16], iv: &[u8; 16], data: Vec<u8>) -> (r: Vec<u8>)
    ensures
        r@ == sm4_cfb_decrypted(key@, iv@, data@),
        r@.len() == data@.len(),
{
    let mut buf = data;
    cfb_mode::Decryptor::<::sm4::Sm4>::new(&(*key).into(), &(*iv).into()).decrypt(&mut buf);
    buf
}

/// `ofb::Ofb::<Sm4>`, made by `KeyIvInit::new` and run by
/// `StreamCipher::apply_keystream`, which works in place on any length. The
/// keystream of this mode has no end.
#[verifier::external_body]
fn ofb_apply(key: &[u8; 16], iv: &[u8; 16], data: Vec<u8>) -> (r: Vec<u8>)
    ensures
        r@ == sm4_ofb_applied(key@, iv@, data@),
        r@.len() == data@.len(),
{
    let mut buf = data;
    ofb::Ofb::<::sm4::Sm4>::new(&(*key).into(), &(*iv).into()).apply_keystream(&mut buf);
    buf
}

/// `ctr::Ctr128BE::<Sm4>`, made by `KeyIvInit::new` and run by
/// `StreamCipher::apply_keystream`, which works in place on any length. A
/// fresh 128-bit counter outlasts any buffer that memory holds.
#[verifier::external_body]
fn ctr_apply(key: &[u8; 16], iv: &[u8; 16], data: Vec<u8>) -> (r: Vec<u8>)
    ensures
        r@ == sm4_ctr_applied(key@, iv@, data@),
        r@.len() == data@.len(),
{
    let mut buf = data;
    ctr::Ctr128BE::<::sm4::Sm4>::new(&(*key).into(), &(*iv).into()).apply_keystream(&mut buf);
    buf
}

/// Whether a mode takes an initialisation vector: every mode but ECB.
pub open spec fn needs_iv(mode: Sm4Mode) -> bool {
    mode != Sm4Mode::Ecb
}

/// Whether a mode works on whole blocks only: ECB and CBC.
pub open spec fn is_block_mode(mode: Sm4Mode) -> bool {
    mode == Sm4Mode::Ecb || mode == Sm4Mode::Cbc
}

/// What a mode makes of `data` when encrypting under `key` and `iv`.
pub open spec fn mode_encrypted(mode: Sm4Mode, key: Seq<u8>, iv: Seq<u8>, data: Seq<u8>) -> Seq<
    u8,
> {
    match mode {
        Sm4Mode::Ecb => sm4_ecb_encrypted(key, data),
        Sm4Mode::Cbc => sm4_cbc_encrypted(key, iv, data),
        Sm4Mode::Cfb => sm4_cfb_encrypted(key, iv, data),
        Sm4Mode::Ofb => sm4_ofb_applied(key, iv, data),
        Sm4Mode::Ctr => sm4_ctr_applied(key, iv, data),
    }
}

/// What a mode makes of `data` when decrypting under `key` and `iv`.
pub open spec fn mode_decrypted(mode: Sm4Mode, key: Seq<u8>, iv: Seq<u8>, data: Seq<u8>) -> Seq<
    u8,
> {
    match mode {
        Sm4Mode::Ecb => sm4_ecb_decrypted(key, data),
        Sm4Mode::Cbc => sm4_cbc_decrypted(key, iv, data),
        Sm4Mode::Cfb => sm4_cfb_decrypted(key, iv, data),
        Sm4Mode::Ofb => sm4_ofb_applied(key, iv, data),
        Sm4Mode::Ctr => sm4_ctr_applied(key, iv, data),
    }
}

/// The outcome of a mode transform: a mode that takes an initialisation
/// vector fails without one, a block mode fails on a ragged buffer, and
/// otherwise `out` is what comes back.
pub open spec fn mode_outcome(mode: Sm4Mode, iv: Option<Seq<u8>>, data: Seq<u8>, out: Seq<u8>) -> Result<
    Seq<u8>,
    EngineError,
> {
    if needs_iv(mode) && iv is None {
        Err(EngineError::MissingIv(mode))
    } else if is_block_mode(mode) && data.len() % 16 != 0 {
        Err(EngineError::DataNotBlockAligned)
    } else {
        Ok(out)
    }
}

/// The initialisation vector in contracts: absent, or its 16 bytes.
pub open spec fn iv_bytes(iv: Option<[u8; 16]>) -> Option<Seq<u8>> {
    match iv {
        Some(v) => Some(v@),
        None => None,
    }
}

/// The vector that a transform is named with where the mode takes none.
pub open spec fn iv_or_empty(iv: Option<Seq<u8>>) -> Seq<u8> {
    match iv {
        Some(v) => v,
        None => Seq::empty(),
    }
}

/// Runs the mode transform in the encrypting direction. No padding is added
/// here.
pub fn encrypt_with_mode(mode: Sm4Mode, key: &[u8; 16], iv: Option<[u8; 16]>, data: Vec<u8>) -> (r:
    Result<Vec<u8>, EngineError>)
    ensures
        bytes_outcome(r) == mode_outcome(
            mode,
            iv_bytes(iv),
            data@,
            mode_encrypted(mode, key@, iv_or_empty(iv_bytes(iv)), data@),
        ),
        r matches Ok(out) ==> out@.len() == data@.len(),
{
    match mode {
        Sm4Mode::Ecb => match ecb_encrypt(key, data) {
            Some(out) => Ok(out),
            None => Err(EngineError::DataNotBlockAligned),
        },
        Sm4Mode::Cbc => match iv {
            None => Err(EngineError::MissingIv(mode)),
            Some(v) => match cbc_encrypt(key, &v, data) {
                Some(out) => Ok(out),
                None => Err(EngineError::DataNotBlockAligned),
            },
        },
        Sm4Mode::Cfb => match iv {
            None => Err(EngineError::MissingIv(mode)),
            Some(v) => Ok(cfb_encrypt(key, &v, data)),
        },
        Sm4Mode::Ofb => match iv {
            None => Err(EngineError::MissingIv(mode)),
            Some(v) => Ok(ofb_apply(key, &v, data)),
        },
        Sm4Mode::Ctr => match iv {
            None => Err(EngineError::MissingIv(mode)),
            Some(v) => Ok(ctr_apply(key, &v, data)),
        },
    }
}

/// Runs the mode transform in the decrypting direction. No padding is
/// removed here.
pub fn decrypt_with_mode(mode: Sm4Mode, key: &[u8; 16], iv: Option<[u8; 16]>, data: Vec<u8>) -> (r:
    Result<Vec<u8>, EngineError>)
    ensures
        bytes_outcome(r) == mode_outcome(
            mode,
            iv_bytes(iv),
            data@,
            mode_decrypted(mode, key@, iv_or_empty(iv_bytes(iv)), data@),
        ),
        r matches Ok(out) ==> out@.len() == data@.len(),
{
    match mode {
        Sm4Mode::Ecb => match ecb_decrypt(key, data) {
            Some(out) => Ok(out),
            None => Err(EngineError::DataNotBlockAligned),
        },
        Sm4Mode::Cbc => match iv {
            None => Err(EngineError::MissingIv(mode)),
            Some(v) => match cbc_decrypt(key, &v, data) {
                Some(out) => Ok(out),
                None => Err(EngineError::DataNotBlockAligned),
            },
        },
        Sm4Mode::Cfb => match iv {
            None => Err(EngineError::MissingIv(mode)),
            Some(v) => Ok(cfb_decrypt(key, &v, data)),
        },
        Sm4Mode::Ofb => match iv {
            None => Err(EngineError::MissingIv(mode)),
            Some(v) => Ok(ofb_apply(key, &v, data)),
        },
        Sm4Mode::Ctr => match iv {
            None => Err(EngineError::MissingIv(mode)),
            Some(v) => Ok(ctr_apply(key, &v, data)),
        },
    }
}

} // verus!
