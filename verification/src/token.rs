//! The token: how it is made from a payload, and how it is read back.

use vstd::pervasive::unreached;
use vstd::prelude::*;
use vstd::slice::slice_to_vec;

use crate::codec::{correct_detached, generate_parity, recoverable, rs_correct, rs_parity};
use crate::digest::{combine, mixed_digest};
use crate::error::{HashError, HashValidationError};
use crate::length::{packed, PackedLength};
use crate::text::{decode_into, decoded_onto, encoded};
use crate::{
    DIGEST_SIZE, HASH_SIZE, HASH_SIZE_BIN, MIN_RECOVERABLE, MIN_RECOVERABLE_BIN, PADDING, PARITY,
    PARITY_OFFSET, PARITY_SIZE,
};

verus! {

/// The frame of `payload`: its mixed digest, then its length, packed, low
/// byte first.
pub open spec fn frame(payload: Seq<u8>) -> Seq<u8> {
    mixed_digest(payload).push((packed(payload.len()) % 256) as u8).push(
        (packed(payload.len()) / 256) as u8,
    )
}

/// What hashing `payload` gives: the frame and the parity that the codec
/// generates for it, or the error with which the codec refuses.
pub open spec fn hashed(payload: Seq<u8>) -> Result<Seq<u8>, HashError> {
    match rs_parity(PARITY, frame(payload)) {
        Ok(parity) => Ok(frame(payload) + parity),
        Err(e) => Err(HashError::RSGenerateParityError(e)),
    }
}

/// The 48 bytes that a binary input is read as: its first 48 bytes, and the
/// padding byte where it has fewer.
pub open spec fn fitted(input: Seq<u8>) -> Seq<u8> {
    Seq::new(
        HASH_SIZE_BIN as nat,
        |i: int|
            if i < input.len() {
                input[i]
            } else {
                PADDING
            },
    )
}

/// The 48 bytes that a text input is read as: the bytes that its characters
/// decode to, and the padding byte where they give fewer than 48.
pub open spec fn unwritten(input: Seq<u8>) -> Seq<u8> {
    decoded_onto(input, Seq::new(HASH_SIZE_BIN as nat, |i: int| PADDING))
}

/// The 48 bytes of `buffer` after the codec has worked on them, whether it
/// repaired them or gave up.
pub open spec fn repaired(buffer: Seq<u8>) -> Seq<u8> {
    let done = rs_correct(
        buffer.subrange(PARITY_OFFSET as int, HASH_SIZE_BIN as int),
        buffer.subrange(0, PARITY_OFFSET as int),
    );
    done.2 + done.1
}

/// What validating the 48 bytes of `buffer` gives: the repaired bytes where
/// the codec succeeds, its error where it does not.
pub open spec fn corrected(buffer: Seq<u8>) -> Result<Seq<u8>, HashValidationError> {
    let done = rs_correct(
        buffer.subrange(PARITY_OFFSET as int, HASH_SIZE_BIN as int),
        buffer.subrange(0, PARITY_OFFSET as int),
    );
    match done.0 {
        Ok(_) => Ok(repaired(buffer)),
        Err(e) => Err(HashValidationError::RSDecodeError(e)),
    }
}

/// What validating `input` gives. An input of 41 to 48 bytes is binary, one
/// of 55 to 64 bytes is text, and any other length is refused.
pub open spec fn validated(input: Seq<u8>) -> Result<Seq<u8>, HashValidationError> {
    if MIN_RECOVERABLE_BIN <= input.len() <= HASH_SIZE_BIN {
        corrected(fitted(input))
    } else if MIN_RECOVERABLE <= input.len() <= HASH_SIZE {
        corrected(unwritten(input))
    } else {
        Err(HashValidationError::InvalidLength(input.len() as usize))
    }
}

/// The 48 bytes `bytes` are those of a token: their parity and their frame
/// are recoverable.
pub open spec fn valid(bytes: Seq<u8>) -> bool {
    &&& bytes.len() == HASH_SIZE_BIN
    &&& recoverable(
        bytes.subrange(PARITY_OFFSET as int, HASH_SIZE_BIN as int),
        bytes.subrange(0, PARITY_OFFSET as int),
    )
}

impl crate::Hash {
    /// The mixed digest that this token holds.
    pub open spec fn spec_digest(self) -> Seq<u8> {
        self@.subrange(0, DIGEST_SIZE as int)
    }

    /// The packed length that this token holds, as two bytes.
    pub open spec fn spec_length(self) -> Seq<u8> {
        self@.subrange(DIGEST_SIZE as int, PARITY_OFFSET as int)
    }

    /// The parity that this token holds.
    pub open spec fn spec_parity(self) -> Seq<u8> {
        self@.subrange(PARITY_OFFSET as int, HASH_SIZE_BIN as int)
    }

    /// The text form of this token, as bytes.
    pub open spec fn spec_text(self) -> Seq<u8> {
        encoded(self@)
    }

    /// Puts a frame and the codec's answer to it together: the token, where
    /// the codec gave a parity, and its error, where it refused.
    pub fn seal(
        frame: &[u8; PARITY_OFFSET],
        generated: Result<Vec<u8>, ps_ecc::RSGenerateParityError>,
    ) -> (r: Result<crate::Hash, HashError>)
        requires
            generated matches Ok(parity) ==> parity@.len() == PARITY_SIZE && recoverable(
                parity@,
                frame@,
            ),
        ensures
            match (generated, r) {
                (Ok(parity), Ok(h)) => h@ == frame@ + parity@,
                (Err(e), Err(HashError::RSGenerateParityError(f))) => e == f,
                _ => false,
            },
            r matches Ok(h) ==> h.is_valid(),
    {
        match generated {
            Ok(parity) => {
                let mut inner = [0u8; HASH_SIZE_BIN];
                let mut i: usize = 0;
                while i < PARITY_OFFSET
                    invariant
                        i <= PARITY_OFFSET,
                        forall|j: int| 0 <= j < i ==> inner@[j] == frame@[j],
                    decreases PARITY_OFFSET - i,
                {
                    inner[i] = frame[i];
                    i += 1;
                }
                let mut k: usize = 0;
                while k < PARITY_SIZE
                    invariant
                        k <= PARITY_SIZE,
                        parity@.len() == PARITY_SIZE,
                        forall|j: int| 0 <= j < PARITY_OFFSET ==> inner@[j] == frame@[j],
                        forall|j: int| 0 <= j < k ==> inner@[PARITY_OFFSET + j] == parity@[j],
                    decreases PARITY_SIZE - k,
                {
                    inner[PARITY_OFFSET + k] = parity[k];
                    k += 1;
                }
                proof {
                    assert(inner@ =~= frame@ + parity@);
                    assert(inner@.subrange(PARITY_OFFSET as int, HASH_SIZE_BIN as int) =~= parity@);
                    assert(inner@.subrange(0, PARITY_OFFSET as int) =~= frame@);
                }
                Ok(crate::Hash { inner })
            },
            Err(e) => Err(HashError::RSGenerateParityError(e)),
        }
    }

    /// Calculates the token of `data`.
    pub fn hash(data: &[u8]) -> (r: Result<crate::Hash, HashError>)
        ensures
            match r {
                Ok(h) => hashed(data@) == Ok::<Seq<u8>, HashError>(h@),
                Err(e) => hashed(data@) == Err::<Seq<u8>, HashError>(e),
            },
            r matches Ok(h) ==> h.is_valid(),
    {
        let digest = combine(data);
        let length = PackedLength::from_usize(data.len()).to_16_bits();
        let mut frame = [0u8; PARITY_OFFSET];
        let mut i: usize = 0;
        while i < DIGEST_SIZE
            invariant
                i <= DIGEST_SIZE,
                forall|j: int| 0 <= j < i ==> frame@[j] == digest@[j],
            decreases DIGEST_SIZE - i,
        {
            frame[i] = digest[i];
            i += 1;
        }
        frame[DIGEST_SIZE] = length[0];
        frame[DIGEST_SIZE + 1] = length[1];
        assert(frame@ =~= self::frame(data@));
        match generate_parity(PARITY, &frame) {
            Some(generated) => crate::Hash::seal(&frame, generated),
            None => unreached(),
        }
    }

    /// Takes the 48 bytes that the codec has worked on, and its answer: the
    /// token, where it succeeded, and its error, where it gave up.
    pub fn accept(
        outcome: Result<(), ps_ecc::RSDecodeError>,
        bytes: [u8; HASH_SIZE_BIN],
    ) -> (r: Result<crate::Hash, HashValidationError>)
        requires
            outcome is Ok ==> valid(bytes@),
        ensures
            match (outcome, r) {
                (Ok(_), Ok(h)) => h@ == bytes@,
                (Err(e), Err(HashValidationError::RSDecodeError(f))) => e == f,
                _ => false,
            },
            r matches Ok(h) ==> h.is_valid(),
    {
        match outcome {
            Ok(_) => Ok(crate::Hash { inner: bytes }),
            Err(e) => Err(HashValidationError::RSDecodeError(e)),
        }
    }

    /// Validates and corrects a token in either form.
    ///
    /// An input of 41 to 48 bytes is taken as the binary form, or as a prefix
    /// of it, and one of 55 to 64 bytes as the text form, or as a prefix of
    /// it. What a prefix lacks is filled with the padding byte before the
    /// codec repairs the whole.
    pub fn validate(bytes: &[u8]) -> (r: Result<crate::Hash, HashValidationError>)
        ensures
            match r {
                Ok(h) => validated(bytes@) == Ok::<Seq<u8>, HashValidationError>(h@),
                Err(e) => validated(bytes@) == Err::<Seq<u8>, HashValidationError>(e),
            },
            r matches Ok(h) ==> h.is_valid(),
    {
        let len = bytes.len();
        let mut inner = [PADDING; HASH_SIZE_BIN];
        if MIN_RECOVERABLE_BIN <= len && len <= HASH_SIZE_BIN {
            let mut i: usize = 0;
            while i < len
                invariant
                    i <= len,
                    len == bytes@.len(),
                    len <= HASH_SIZE_BIN,
                    forall|j: int| 0 <= j < i ==> inner@[j] == bytes@[j],
                    forall|j: int| i <= j < HASH_SIZE_BIN ==> inner@[j] == PADDING,
                decreases len - i,
            {
                inner[i] = bytes[i];
                i += 1;
            }
            assert(inner@ =~= fitted(bytes@));
        } else if MIN_RECOVERABLE <= len && len <= HASH_SIZE {
            assert(inner@ =~= Seq::new(HASH_SIZE_BIN as nat, |i: int| PADDING));
            decode_into(bytes, &mut inner);
        } else {
            return Err(HashValidationError::InvalidLength(len));
        }
        let ghost before = inner@;
        let (data, parity) = inner.split_at_mut(PARITY_OFFSET);
        let outcome = correct_detached(parity, data);
        proof {
            assert(inner@ =~= repaired(before));
            assert(inner@.subrange(PARITY_OFFSET as int, HASH_SIZE_BIN as int) =~= rs_correct(
                before.subrange(PARITY_OFFSET as int, HASH_SIZE_BIN as int),
                before.subrange(0, PARITY_OFFSET as int),
            ).1);
            assert(inner@.subrange(0, PARITY_OFFSET as int) =~= rs_correct(
                before.subrange(PARITY_OFFSET as int, HASH_SIZE_BIN as int),
                before.subrange(0, PARITY_OFFSET as int),
            ).2);
        }
        crate::Hash::accept(outcome, inner)
    }

    /// Validates and corrects a token in binary form.
    ///
    /// An input of any length is taken: its first 48 bytes, with the padding
    /// byte where it has fewer.
    pub fn validate_bin(hash: &[u8]) -> (r: Result<crate::Hash, HashValidationError>)
        ensures
            match r {
                Ok(h) => corrected(fitted(hash@)) == Ok::<Seq<u8>, HashValidationError>(h@),
                Err(e) => corrected(fitted(hash@)) == Err::<Seq<u8>, HashValidationError>(e),
            },
            r matches Ok(h) ==> h.is_valid(),
    {
        let mut buffer = slice_to_vec(hash);
        crate::Hash::validate_bin_vec(&mut buffer)
    }

    /// Validates and corrects a token in binary form, in the vector that
    /// holds it.
    ///
    /// The vector is brought to 48 bytes, with the padding byte where it has
    /// fewer, and is left as the codec leaves it.
    pub fn validate_bin_vec(hash: &mut Vec<u8>) -> (r: Result<crate::Hash, HashValidationError>)
        ensures
            final(hash)@ == repaired(fitted(old(hash)@)),
            match r {
                Ok(h) => corrected(fitted(old(hash)@)) == Ok::<Seq<u8>, HashValidationError>(h@),
                Err(e) => corrected(fitted(old(hash)@)) == Err::<Seq<u8>, HashValidationError>(e),
            },
            r matches Ok(h) ==> h.is_valid(),
    {
        hash.resize(HASH_SIZE_BIN, PADDING);
        let ghost before = hash@;
        assert(before =~= fitted(old(hash)@));
        let (data, parity) = hash.as_mut_slice().split_at_mut(PARITY_OFFSET);
        let outcome = correct_detached(parity, data);
        proof {
            assert(hash@ =~= repaired(before));
            assert(hash@.subrange(PARITY_OFFSET as int, HASH_SIZE_BIN as int) =~= rs_correct(
                before.subrange(PARITY_OFFSET as int, HASH_SIZE_BIN as int),
                before.subrange(0, PARITY_OFFSET as int),
            ).1);
            assert(hash@.subrange(0, PARITY_OFFSET as int) =~= rs_correct(
                before.subrange(PARITY_OFFSET as int, HASH_SIZE_BIN as int),
                before.subrange(0, PARITY_OFFSET as int),
            ).2);
        }
        let mut inner = [0u8; HASH_SIZE_BIN];
        let mut i: usize = 0;
        while i < HASH_SIZE_BIN
            invariant
                i <= HASH_SIZE_BIN,
                hash@.len() == HASH_SIZE_BIN,
                forall|j: int| 0 <= j < i ==> inner@[j] == hash@[j],
            decreases HASH_SIZE_BIN - i,
        {
            inner[i] = hash[i];
            i += 1;
        }
        assert(inner@ =~= hash@);
        crate::Hash::accept(outcome, inner)
    }
}

} // verus!
