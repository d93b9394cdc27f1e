//! Block padding: what is appended before encryption and removed after
//! decryption.

use vstd::prelude::*;
use crate::error::{bytes_outcome, EngineError};

verus! {

/// The cipher's block size in bytes.
pub const BLOCK: usize = 16;

/// How a plaintext is brought to a whole number of blocks.
#[derive(Clone, Copy, Debug, PartialEq, Eq, Structural)]
pub enum Sm4Padding {
    Pkcs7,
    Zero,
    NoPadding,
}

/// The number of bytes that PKCS7 appends to a message of `len` bytes: between
/// 1 and 16, a whole block when the message is already aligned.
pub open spec fn pkcs7_pad_len(len: nat) -> nat {
    (16 - len % 16) as nat
}

/// The number of zero bytes that bring `len` to the next multiple of 16.
pub open spec fn zero_pad_len(len: nat) -> nat {
    if len % 16 == 0 {
        0
    } else {
        (16 - len % 16) as nat
    }
}

/// `count` copies of `byte`.
pub open spec fn repeated(byte: u8, count: nat) -> Seq<u8> {
    Seq::new(count, |i: int| byte)
}

/// The padded form of `data`.
pub open spec fn padded(data: Seq<u8>, padding: Sm4Padding) -> Result<Seq<u8>, EngineError> {
    match padding {
        Sm4Padding::NoPadding => if data.len() % 16 == 0 {
            Ok(data)
        } else {
            Err(EngineError::DataNotBlockAligned)
        },
        Sm4Padding::Zero => Ok(data + repeated(0u8, zero_pad_len(data.len()))),
        Sm4Padding::Pkcs7 => Ok(
            data + repeated(pkcs7_pad_len(data.len()) as u8, pkcs7_pad_len(data.len())),
        ),
    }
}

/// `data` without the zero bytes at its end.
pub open spec fn without_trailing_zeros(data: Seq<u8>) -> Seq<u8>
    decreases data.len(),
{
    if data.len() > 0 && data.last() == 0u8 {
        without_trailing_zeros(data.drop_last())
    } else {
        data
    }
}

/// Whether `data` ends in a well-formed PKCS7 padding: it is not empty, a
/// whole number of blocks, its last byte `p` lies in 1..=16, and each of its
/// last `p` bytes equals `p`.
pub open spec fn pkcs7_well_formed(data: Seq<u8>) -> bool {
    &&& data.len() > 0
    &&& data.len() % 16 == 0
    &&& 1 <= data.last() <= 16
    &&& forall|i: int| data.len() - data.last() <= i < data.len() ==> data[i] == data.last()
}

/// `data` with its padding removed.
pub open spec fn unpadded(data: Seq<u8>, padding: Sm4Padding) -> Result<Seq<u8>, EngineError> {
    match padding {
        Sm4Padding::NoPadding => Ok(data),
        Sm4Padding::Zero => Ok(without_trailing_zeros(data)),
        Sm4Padding::Pkcs7 => if pkcs7_well_formed(data) {
            Ok(data.take(data.len() - data.last()))
        } else {
            Err(EngineError::InvalidPkcs7Padding)
        },
    }
}

/// Appends `count` copies of `byte` to `data`.
fn extend_with(data: &mut Vec<u8>, byte: u8, count: usize)
    ensures
        final(data)@ == old(data)@ + repeated(byte, count as nat),
{
    let mut done: usize = 0;
    while done < count
        invariant
            done <= count,
            data@ == old(data)@ + repeated(byte, done as nat),
        decreases count - done,
    {
        data.push(byte);
        done = done + 1;
    }
}

/// Pads a plaintext before the mode transform.
///
/// PKCS7 always appends, a whole block when the input is aligned; zero
/// padding appends only to an unaligned input; without padding an unaligned
/// input is refused.
pub fn apply_padding(data: Vec<u8>, padding: Sm4Padding) -> (r: Result<Vec<u8>, EngineError>)
    ensures
        bytes_outcome(r) == padded(data@, padding),
{
    let mut data = data;
    let rem: usize = data.len() % BLOCK;
    match padding {
        Sm4Padding::NoPadding => {
            if rem != 0 {
                return Err(EngineError::DataNotBlockAligned);
            }
            Ok(data)
        },
        Sm4Padding::Zero => {
            if rem != 0 {
                extend_with(&mut data, 0u8, BLOCK - rem);
            } else {
                assert(data@ + repeated(0u8, 0) =~= data@);
            }
            Ok(data)
        },
        Sm4Padding::Pkcs7 => {
            let pad: usize = BLOCK - rem;
            extend_with(&mut data, pad as u8, pad);
            Ok(data)
        },
    }
}

/// Removes the padding from a decrypted buffer.
///
/// PKCS7 is checked in full and a malformed padding is an error; zero padding
/// strips every zero byte at the end, also those that belonged to the
/// plaintext.
pub fn remove_padding(data: Vec<u8>, padding: Sm4Padding) -> (r: Result<Vec<u8>, EngineError>)
    ensures
        bytes_outcome(r) == unpadded(data@, padding),
{
    match padding {
        Sm4Padding::NoPadding => Ok(data),
        Sm4Padding::Zero => {
            let mut rest = data;
            while rest.len() > 0 && rest[rest.len() - 1] == 0u8
                invariant
                    without_trailing_zeros(rest@) == without_trailing_zeros(data@),
                decreases rest.len(),
            {
                rest.pop();
            }
            Ok(rest)
        },
        Sm4Padding::Pkcs7 => {
            let len: usize = data.len();
            if len == 0 || len % BLOCK != 0 {
                return Err(EngineError::InvalidPkcs7Padding);
            }
            let last: u8 = data[len - 1];
            let pad: usize = last as usize;
            if pad == 0 || pad > BLOCK || pad > len {
                return Err(EngineError::InvalidPkcs7Padding);
            }
            let mut at: usize = len - pad;
            while at < len
                invariant
                    padding == Sm4Padding::Pkcs7,
                    len == data@.len(),
                    0 < pad <= len,
                    pad == last,
                    last == data@.last(),
                    len - pad <= at <= len,
                    forall|i: int| len - pad <= i < at ==> data@[i] == last,
                decreases len - at,
            {
                if data[at] != last {
                    return Err(EngineError::InvalidPkcs7Padding);
                }
                at = at + 1;
            }
            let mut rest = data;
            rest.truncate(len - pad);
            Ok(rest)
        },
    }
}

/// PKCS7 padding grows a message to the next multiple of 16 above its length,
/// by 1 to 16 bytes.
pub proof fn lemma_pkcs7_grows_to_block(data: Seq<u8>)
    ensures
        padded(data, Sm4Padding::Pkcs7) matches Ok(p) && p.len() % 16 == 0 && data.len() < p.len()
            <= data.len() + 16 && p.take(data.len() as int) == data,
{
    let p = padded(data, Sm4Padding::Pkcs7)->Ok_0;
    assert(p.take(data.len() as int) =~= data);
}

/// Removing PKCS7 padding undoes applying it.
pub proof fn lemma_pkcs7_round_trip(data: Seq<u8>)
    ensures
        padded(data, Sm4Padding::Pkcs7) matches Ok(p) && unpadded(p, Sm4Padding::Pkcs7) == Ok::<
            Seq<u8>,
            EngineError,
        >(data),
{
    let p = padded(data, Sm4Padding::Pkcs7)->Ok_0;
    let n = pkcs7_pad_len(data.len());
    assert(p.last() == n as u8);
    assert(p.take(p.len() - p.last()) =~= data);
}

/// Removing zero padding undoes applying it, for a message that does not
/// itself end in a zero byte.
pub proof fn lemma_zero_round_trip(data: Seq<u8>)
    requires
        data.len() == 0 || data.last() != 0u8,
    ensures
        padded(data, Sm4Padding::Zero) matches Ok(p) && unpadded(p, Sm4Padding::Zero) == Ok::<
            Seq<u8>,
            EngineError,
        >(data),
{
    lemma_strip_appended_zeros(data, zero_pad_len(data.len()));
}

/// Zero bytes appended to a message that does not end in zero are exactly
/// what stripping removes.
proof fn lemma_strip_appended_zeros(data: Seq<u8>, count: nat)
    requires
        data.len() == 0 || data.last() != 0u8,
    ensures
        without_trailing_zeros(data + repeated(0u8, count)) == data,
    decreases count,
{
    let whole = data + repeated(0u8, count);
    if count == 0 {
        assert(whole =~= data);
    } else {
        assert(whole.drop_last() =~= data + repeated(0u8, (count - 1) as nat));
        lemma_strip_appended_zeros(data, (count - 1) as nat);
    }
}

/// A buffer whose last byte is zero or above 16 is never taken for padded
/// data under PKCS7.
pub proof fn lemma_pkcs7_rejects_bad_length_byte(data: Seq<u8>)
    requires
        data.len() > 0,
        data.last() == 0u8 || data.last() > 16u8,
    ensures
        unpadded(data, Sm4Padding::Pkcs7) == Err::<Seq<u8>, EngineError>(
            EngineError::InvalidPkcs7Padding,
        ),
{
}

} // verus!
