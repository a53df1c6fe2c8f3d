//! The fields of a token and its compact form.

use vstd::prelude::*;

use crate::error::{HashValidationError, PsHashError};
use crate::laws::lemma_compact_round_trip;
use crate::length::PackedLength;
use crate::text::{decode_into, decoded_onto};
use crate::token::validated;
use crate::{
    DIGEST_SIZE, HASH_SIZE, HASH_SIZE_BIN, HASH_SIZE_COMPACT, PARITY_OFFSET, PARITY_SIZE,
};

verus! {

/// `subarray` of `ps_util` returns the `S` elements of `slice` that start at
/// `index`, and panics where `slice` does not hold that many from there on.
pub assume_specification<const S: usize, T>[ ps_util::subarray::<S, T> ](
    slice: &[T],
    index: usize,
) -> (r: &[T; S])
    requires
        index + S <= slice@.len(),
    ensures
        r@ == slice@.subrange(index as int, index + S),
;

/// The 48 bytes that a text is taken apart as: the bytes that its characters
/// decode to, and zero where they give fewer than 48.
pub open spec fn unpacked_text(input: Seq<u8>) -> Seq<u8> {
    decoded_onto(input, Seq::new(HASH_SIZE_BIN as nat, |i: int| 0u8))
}

impl crate::Hash {
    /// Takes the text form of a token apart into its mixed digest, its parity
    /// and its packed length, without repairing anything.
    ///
    /// A text of fewer than 64 bytes is refused.
    pub fn decode_parts(input: &[u8]) -> (r: Result<
        ([u8; DIGEST_SIZE], [u8; PARITY_SIZE], PackedLength),
        PsHashError,
    >)
        ensures
            r is Err <==> input@.len() < HASH_SIZE,
            r matches Err(e) ==> e == PsHashError::InputTooShort,
            r matches Ok(parts) ==> parts.0@ == unpacked_text(input@).subrange(
                0,
                DIGEST_SIZE as int,
            ),
            r matches Ok(parts) ==> parts.1@ == unpacked_text(input@).subrange(
                PARITY_OFFSET as int,
                HASH_SIZE_BIN as int,
            ),
            r matches Ok(parts) ==> parts.2@ == unpacked_text(input@).subrange(
                DIGEST_SIZE as int,
                PARITY_OFFSET as int,
            ),
    {
        if input.len() < HASH_SIZE {
            return Err(PsHashError::InputTooShort);
        }
        let mut bytes = [0u8; HASH_SIZE_BIN];
        assert(bytes@ =~= Seq::new(HASH_SIZE_BIN as nat, |i: int| 0u8));
        decode_into(input, &mut bytes);
        let digest = *ps_util::subarray::<DIGEST_SIZE, u8>(&bytes, 0);
        let parity = *ps_util::subarray::<PARITY_SIZE, u8>(&bytes, PARITY_OFFSET);
        let length = PackedLength::from_16_bits(&[bytes[DIGEST_SIZE], bytes[DIGEST_SIZE + 1]]);
        assert(length@ =~= bytes@.subrange(DIGEST_SIZE as int, PARITY_OFFSET as int));
        Ok((digest, parity, length))
    }

    /// The compact form of this token: the first 42 bytes of its binary form.
    ///
    /// [`Hash::validate`](crate::Hash::validate) turns the compact form back
    /// into the token.
    pub fn compact(&self) -> (r: &[u8])
        ensures
            r@ == self@.subrange(0, HASH_SIZE_COMPACT as int),
            validated(r@) == Ok::<Seq<u8>, HashValidationError>(self@),
    {
        proof {
            use_type_invariant(self);
            lemma_compact_round_trip(*self);
        }
        &self.inner[0..HASH_SIZE_COMPACT]
    }

    /// The mixed digest: the first 32 bytes.
    pub fn digest(&self) -> (r: &[u8; DIGEST_SIZE])
        ensures
            r@ == self.spec_digest(),
    {
        ps_util::subarray(&self.inner, 0)
    }

    /// The parity: the last 14 bytes.
    pub fn parity(&self) -> (r: &[u8; PARITY_SIZE])
        ensures
            r@ == self.spec_parity(),
    {
        ps_util::subarray(&self.inner, PARITY_OFFSET)
    }

    /// The length of the payload, in its packed form.
    pub fn length(&self) -> (r: PackedLength)
        ensures
            r@ == self.spec_length(),
    {
        let r = PackedLength::from_16_bits(&[self.inner[DIGEST_SIZE], self.inner[DIGEST_SIZE + 1]]);
        assert(r@ =~= self.spec_length());
        r
    }

    /// How large a buffer the payload needs, in packed form: the packed
    /// length, which is never less than the payload's own.
    pub fn data_max_len(&self) -> (r: PackedLength)
        ensures
            r@ == self.spec_length(),
    {
        self.length()
    }
}

} // verus!
