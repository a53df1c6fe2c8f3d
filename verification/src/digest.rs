//! The two digests of a payload and their combination.

use sha2::Digest;
use vstd::prelude::*;

use crate::DIGEST_SIZE;

verus! {

/// The SHA-256 digest of `data`.
pub uninterp spec fn sha256_digest(data: Seq<u8>) -> Seq<u8>;

/// The BLAKE3 digest of `data`, at its default length of 32 bytes.
pub uninterp spec fn blake3_digest(data: Seq<u8>) -> Seq<u8>;

/// The mixed digest of `data`: byte by byte, the XOR of its two digests.
pub open spec fn mixed_digest(data: Seq<u8>) -> Seq<u8> {
    Seq::new(DIGEST_SIZE as nat, |i: int| sha256_digest(data)[i] ^ blake3_digest(data)[i])
}

/// Calls `Sha256::digest` of `sha2`.
///
/// Trusted: the 32 bytes that come back are the SHA-256 digest of `data`.
#[verifier::external_body]
pub fn sha256(data: &[u8]) -> (r: [u8; DIGEST_SIZE])
    ensures
        r@ == sha256_digest(data@),
{
    sha2::Sha256::digest(data).into()
}

/// Calls `blake3::hash` and hands out the bytes of what it returns.
///
/// Trusted: the 32 bytes that come back are the BLAKE3 digest of `data`.
#[verifier::external_body]
pub fn blake3(data: &[u8]) -> (r: [u8; DIGEST_SIZE])
    ensures
        r@ == blake3_digest(data@),
{
    *::blake3::hash(data).as_bytes()
}

/// Computes the mixed digest of `data`.
pub fn combine(data: &[u8]) -> (r: [u8; DIGEST_SIZE])
    ensures
        r@ == mixed_digest(data@),
{
    let sha = sha256(data);
    let blake = blake3(data);
    let mut mixed = [0u8; DIGEST_SIZE];
    let mut i: usize = 0;
    while i < DIGEST_SIZE
        invariant
            i <= DIGEST_SIZE,
            sha@ == sha256_digest(data@),
            blake@ == blake3_digest(data@),
            forall|j: int| 0 <= j < i ==> mixed@[j] == sha@[j] ^ blake@[j],
        decreases DIGEST_SIZE - i,
    {
        mixed[i] = sha[i] ^ blake[i];
        i += 1;
    }
    assert(mixed@ =~= mixed_digest(data@));
    mixed
}

} // verus!
