//! A fixed-size, self-describing, error-correcting digest token.
//!
//! A [`Hash`] is 48 bytes: the XOR of the SHA-256 and BLAKE3 digests of a
//! payload, the payload's length packed into two bytes, and fourteen
//! Reed–Solomon parity bytes over those thirty-four. It is written either as
//! the 48 bytes themselves or as 64 base64url characters, and
//! [`Hash::validate`] reads either form back, repairing damage that the
//! parity can cover.
//!
//! Every executable function carries a contract over the sequence of bytes
//! that a token holds (its view); the module `laws` proves what the contracts
//! mean together.

use vstd::prelude::*;

pub mod codec;
pub mod convert;
pub mod digest;
pub mod display;
pub mod error;
pub mod fields;
pub mod hashing;
pub mod laws;
pub mod length;
pub mod lexical;
pub mod ordering;
pub mod text;
pub mod token;

pub use error::{HashError, HashValidationError, PsHashError};
pub use digest::{blake3, combine, sha256};
pub use length::PackedLength;

verus! {

/// Bytes of the mixed digest, at the start of a token.
pub const DIGEST_SIZE: usize = 32;

/// Bytes of the packed payload length, which follow the digest.
pub const SIZE_SIZE: usize = 2;

/// Where the parity starts: the digest and the packed length come before it.
pub const PARITY_OFFSET: usize = 34;

/// Byte errors that the parity of a token can repair.
pub const PARITY: u8 = 7;

/// Bytes of parity at the end of a token, two for each repairable error.
pub const PARITY_SIZE: usize = 14;

/// Bytes of a token in binary form.
pub const HASH_SIZE_BIN: usize = 48;

/// Bytes of a token in binary form.
pub const HASH_SIZE_TOTAL_BIN: usize = 48;

/// Characters of a token in text form.
pub const HASH_SIZE: usize = 64;

/// Bytes of the compact form, a prefix of the binary form.
pub const HASH_SIZE_COMPACT: usize = 42;

/// The shortest binary input that validation looks at.
pub const MIN_RECOVERABLE_BIN: usize = 41;

/// The shortest text input that validation looks at.
pub const MIN_RECOVERABLE: usize = 55;

/// The byte that stands in for what a short input lacks.
pub const PADDING: u8 = 0xF4;

/// A digest token. Its view is its binary form, 48 bytes.
#[derive(Clone, Copy, Debug, Eq, Ord)]
pub struct Hash {
    inner: [u8; HASH_SIZE_BIN],
}

impl View for Hash {
    type V = Seq<u8>;

    closed spec fn view(&self) -> Seq<u8> {
        self.inner@
    }
}

impl Hash {
    /// Every token is valid: it can be recovered from as many byte errors as
    /// its parity covers.
    #[verifier::type_invariant]
    pub open spec fn is_valid(self) -> bool {
        token::valid(self@)
    }
}

/// Calculates the token of `data`.
pub fn hash(data: &[u8]) -> (r: Result<Hash, HashError>)
    ensures
        match r {
            Ok(h) => token::hashed(data@) == Ok::<Seq<u8>, HashError>(h@),
            Err(e) => token::hashed(data@) == Err::<Seq<u8>, HashError>(e),
        },
        r matches Ok(h) ==> h.is_valid(),
{
    Hash::hash(data)
}

} // verus!
