//! The errors that hashing and validation hand back.

use vstd::prelude::*;

verus! {

/// The codec's error for a failed correction, carried through unread.
#[verifier::external_type_specification]
#[verifier::external_body]
pub struct ExRSDecodeError(ps_ecc::RSDecodeError);

/// The codec's error for a failed parity generation, carried through unread.
#[verifier::external_type_specification]
#[verifier::external_body]
pub struct ExRSGenerateParityError(ps_ecc::RSGenerateParityError);

/// Why a token's text could not be taken apart.
#[derive(Clone, Copy, Debug, PartialEq, Eq, PartialOrd, Ord, Hash)]
pub enum PsHashError {
    /// The input holds fewer characters than a token's text.
    InputTooShort,
    /// Reading from a slice failed.
    TryFromSliceError,
    /// The input has a length that no token has.
    BadInputLength,
    /// The input holds a byte that no token holds.
    BadInputByte,
}

/// Why a payload could not be hashed.
#[derive(Debug, PartialEq, Eq)]
pub enum HashError {
    /// The codec refused to generate parity; its error is passed on as it came.
    RSGenerateParityError(ps_ecc::RSGenerateParityError),
}

/// Why an input is not a token.
#[derive(Debug, PartialEq, Eq)]
pub enum HashValidationError {
    /// The input's length, given here, is that of neither form.
    InvalidLength(usize),
    /// The codec could not repair the input; its error is passed on as it came.
    RSDecodeError(ps_ecc::RSDecodeError),
}

impl PsHashError {
    /// The message of this error.
    pub fn message(&self) -> (r: &'static str)
        ensures
            r@ == match *self {
                PsHashError::InputTooShort => "The input was too short and could not be decoded."@,
                PsHashError::TryFromSliceError => "Reading from a slice failed."@,
                PsHashError::BadInputLength => "When converting &[u8] to Hash: incorrect length"@,
                PsHashError::BadInputByte => "When converting &[u8] to Hash: invalid byte"@,
            },
    {
        match self {
            PsHashError::InputTooShort => "The input was too short and could not be decoded.",
            PsHashError::TryFromSliceError => "Reading from a slice failed.",
            PsHashError::BadInputLength => "When converting &[u8] to Hash: incorrect length",
            PsHashError::BadInputByte => "When converting &[u8] to Hash: invalid byte",
        }
    }
}

} // verus!
