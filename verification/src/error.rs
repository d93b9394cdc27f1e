//! The closed set of failures that the engine reports.

use vstd::prelude::*;
use crate::basex::Base;
use crate::modes::Sm4Mode;
use crate::sm4::KeyField;

verus! {

/// Why a text could not be decoded, or an alphabet not used.
#[derive(Clone, Copy, Debug, PartialEq, Eq, Structural)]
pub enum MalformedReason {
    /// A character that the active alphabet does not hold.
    Symbol,
    /// A length that no encoded text has.
    Length,
    /// A run of padding characters of the wrong length or in the wrong place.
    Padding,
    /// Bits beyond the last whole byte that are not zero.
    TrailingBits,
    /// A group of digits whose value does not fit the bytes it stands for.
    Range,
    /// An alphabet with a repeated, missing or unusable symbol.
    Alphabet,
    /// An input longer than the codec can address on this machine.
    TooLong,
}

/// Every way in which a request can fail.
#[derive(Debug, PartialEq, Eq)]
pub enum EngineError {
    UnknownBase,
    AlphabetLengthMismatch { base: Base, expected: usize, actual: usize },
    CustomAlphabetUnsupported { base: Base },
    MalformedInput(MalformedReason),
    InvalidUtf8Output,
    MissingIv(Sm4Mode),
    MissingIvType,
    WrongKeyOrIvLength { field: KeyField, expected: usize, actual: usize },
    DataNotBlockAligned,
    InvalidPkcs7Padding,
    UnsupportedBitOrder(String),
}

impl Clone for EngineError {
    fn clone(&self) -> (r: Self)
        ensures
            r == *self,
    {
        match self {
            EngineError::UnknownBase => EngineError::UnknownBase,
            EngineError::AlphabetLengthMismatch { base, expected, actual } => {
                EngineError::AlphabetLengthMismatch {
                    base: *base,
                    expected: *expected,
                    actual: *actual,
                }
            },
            EngineError::CustomAlphabetUnsupported { base } => {
                EngineError::CustomAlphabetUnsupported { base: *base }
            },
            EngineError::MalformedInput(reason) => EngineError::MalformedInput(*reason),
            EngineError::InvalidUtf8Output => EngineError::InvalidUtf8Output,
            EngineError::MissingIv(mode) => EngineError::MissingIv(*mode),
            EngineError::MissingIvType => EngineError::MissingIvType,
            EngineError::WrongKeyOrIvLength { field, expected, actual } => {
                EngineError::WrongKeyOrIvLength {
                    field: *field,
                    expected: *expected,
                    actual: *actual,
                }
            },
            EngineError::DataNotBlockAligned => EngineError::DataNotBlockAligned,
            EngineError::InvalidPkcs7Padding => EngineError::InvalidPkcs7Padding,
            EngineError::UnsupportedBitOrder(name) => EngineError::UnsupportedBitOrder(
                name.clone(),
            ),
        }
    }
}

/// What a byte result says in contracts: the bytes, or the failure.
pub open spec fn bytes_outcome(r: Result<Vec<u8>, EngineError>) -> Result<Seq<u8>, EngineError> {
    match r {
        Ok(v) => Ok(v@),
        Err(e) => Err(e),
    }
}

/// What a text result says in contracts: the characters, or the failure.
pub open spec fn text_outcome(r: Result<String, EngineError>) -> Result<Seq<char>, EngineError> {
    match r {
        Ok(s) => Ok(s@),
        Err(e) => Err(e),
    }
}

} // verus!
