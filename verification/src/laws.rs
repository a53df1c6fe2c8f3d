//! What the contracts mean together: a token comes back from each of its
//! forms, and from damage that its parity covers.
//!
//! Each law is stated of a valid token. Every token that the library hands
//! out is one: hashing and validation say so, and the type keeps it so.

use vstd::prelude::*;

use crate::codec::{lemma_mismatches_in_window, mismatches};
use crate::error::{HashError, HashValidationError};
use crate::fields::unpacked_text;
use crate::length::{
    lemma_length_round_trip, lemma_packed_fits, lemma_packing_rounds_up, packed, representable,
    unpacked,
};
use crate::text::{
    decoded_count, decoded_len, lemma_octet_of_sextets, lemma_sextet_is_small,
    lemma_symbol_is_read_back, lemma_text_is_read_back, lemma_values_of_clean,
    lemma_values_of_parts, sextet, skipped, values,
};
use crate::token::{corrected, fitted, hashed, repaired, unwritten, validated};
use crate::{
    HASH_SIZE, HASH_SIZE_BIN, HASH_SIZE_COMPACT, MIN_RECOVERABLE, MIN_RECOVERABLE_BIN, PADDING,
    PARITY, PARITY_OFFSET,
};

verus! {

/// The number of byte errors that lie between the 48 bytes of `buffer` and
/// those of `token`, counted in the parity and in the frame.
pub open spec fn damage(buffer: Seq<u8>, token: Seq<u8>) -> nat {
    mismatches(
        buffer.subrange(PARITY_OFFSET as int, HASH_SIZE_BIN as int),
        token.subrange(PARITY_OFFSET as int, HASH_SIZE_BIN as int),
    ) + mismatches(
        buffer.subrange(0, PARITY_OFFSET as int),
        token.subrange(0, PARITY_OFFSET as int),
    )
}

/// Bytes that agree with a token's everywhere outside the window from `lo`
/// up to `hi` carry no more damage than the window has bytes.
pub proof fn lemma_damage_in_window(buffer: Seq<u8>, token: Seq<u8>, lo: int, hi: int)
    requires
        buffer.len() == HASH_SIZE_BIN,
        token.len() == HASH_SIZE_BIN,
        0 <= lo <= hi <= HASH_SIZE_BIN,
        forall|i: int| 0 <= i < HASH_SIZE_BIN && !(lo <= i < hi) ==> buffer[i] == token[i],
    ensures
        damage(buffer, token) <= hi - lo,
{
    let split = PARITY_OFFSET as int;
    let end = HASH_SIZE_BIN as int;
    let frame_lo = if lo < split {
        lo
    } else {
        split
    };
    let frame_hi = if hi < split {
        hi
    } else {
        split
    };
    lemma_mismatches_in_window(
        buffer.subrange(0, split),
        token.subrange(0, split),
        frame_lo,
        frame_hi,
    );
    lemma_mismatches_in_window(
        buffer.subrange(split, end),
        token.subrange(split, end),
        lo - frame_lo,
        hi - frame_hi,
    );
}

/// Repair: 48 bytes that carry no more damage than the parity covers are
/// corrected to the token.
pub proof fn lemma_repair(token: crate::Hash, buffer: Seq<u8>)
    requires
        token.is_valid(),
        buffer.len() == HASH_SIZE_BIN,
        damage(buffer, token@) <= PARITY,
    ensures
        corrected(buffer) == Ok::<Seq<u8>, HashValidationError>(token@),
        repaired(buffer) == token@,
{
    let split = PARITY_OFFSET as int;
    let end = HASH_SIZE_BIN as int;
    assert(token@.subrange(0, split) + token@.subrange(split, end) =~= token@);
}

/// Binary idempotence: the binary form of a token validates to the token.
pub proof fn lemma_binary_round_trip(token: crate::Hash)
    requires
        token.is_valid(),
    ensures
        validated(token@) == Ok::<Seq<u8>, HashValidationError>(token@),
{
    lemma_binary_prefix(token, HASH_SIZE_BIN as int);
    assert(token@.subrange(0, HASH_SIZE_BIN as int) =~= token@);
}

/// Compact round trip: the compact form of a token validates to the token.
pub proof fn lemma_compact_round_trip(token: crate::Hash)
    requires
        token.is_valid(),
    ensures
        validated(token@.subrange(0, HASH_SIZE_COMPACT as int)) == Ok::<
            Seq<u8>,
            HashValidationError,
        >(token@),
{
    lemma_binary_prefix(token, HASH_SIZE_COMPACT as int);
}

/// Every prefix of a token's binary form that keeps at least 41 bytes
/// validates to the token: the padding stands in for at most seven bytes.
pub proof fn lemma_binary_prefix(token: crate::Hash, n: int)
    requires
        token.is_valid(),
        MIN_RECOVERABLE_BIN <= n <= HASH_SIZE_BIN,
    ensures
        validated(token@.subrange(0, n)) == Ok::<Seq<u8>, HashValidationError>(token@),
{
    let buffer = fitted(token@.subrange(0, n));
    lemma_damage_in_window(buffer, token@, n, HASH_SIZE_BIN as int);
    lemma_repair(token, buffer);
}

/// Binary correction: a binary input of full length that differs from a
/// token in at most seven bytes validates to the token.
pub proof fn lemma_binary_correction(token: crate::Hash, input: Seq<u8>)
    requires
        token.is_valid(),
        input.len() == HASH_SIZE_BIN,
        damage(input, token@) <= PARITY,
    ensures
        validated(input) == Ok::<Seq<u8>, HashValidationError>(token@),
{
    assert(fitted(input) =~= input);
    lemma_repair(token, input);
}

/// Textual idempotence: the text form of a token validates to the token.
pub proof fn lemma_text_round_trip(token: crate::Hash)
    requires
        token.is_valid(),
    ensures
        validated(token.spec_text()) == Ok::<Seq<u8>, HashValidationError>(token@),
{
    lemma_text_is_read_back(token@, Seq::new(HASH_SIZE_BIN as nat, |i: int| PADDING));
    lemma_damage_in_window(token@, token@, 0, 0);
    lemma_repair(token, token@);
}

/// A text of 55 to 64 bytes that starts with the first 55 characters of a
/// token's text form validates to the token, whatever follows them: those
/// characters hold the first 41 bytes, and the parity covers the other seven.
pub proof fn lemma_text_prefix(token: crate::Hash, input: Seq<u8>)
    requires
        token.is_valid(),
        MIN_RECOVERABLE <= input.len() <= HASH_SIZE,
        input.subrange(0, MIN_RECOVERABLE as int) == token.spec_text().subrange(
            0,
            MIN_RECOVERABLE as int,
        ),
    ensures
        validated(input) == Ok::<Seq<u8>, HashValidationError>(token@),
{
    let kept = MIN_RECOVERABLE as int;
    let text = token.spec_text();
    let head = input.subrange(0, kept);
    let tail = input.subrange(kept, input.len() as int);
    assert(input =~= head + tail);
    lemma_values_of_parts(head, tail);
    assert forall|i: int| 0 <= i < head.len() implies !skipped(#[trigger] head[i]) by {
        assert(head[i] == text.subrange(0, kept)[i]);
        lemma_sextet_is_small(token@, i);
        lemma_symbol_is_read_back(sextet(token@, i));
    }
    lemma_values_of_clean(head);
    let v = values(input);
    assert forall|i: int| 0 <= i < kept implies #[trigger] v[i] == sextet(token@, i) by {
        assert(v[i] == values(head)[i]);
        assert(head[i] == text.subrange(0, kept)[i]);
        lemma_sextet_is_small(token@, i);
        lemma_symbol_is_read_back(sextet(token@, i));
    }
    assert(decoded_len(v.len()) >= MIN_RECOVERABLE_BIN);
    let buffer = unwritten(input);
    assert forall|j: int| 0 <= j < MIN_RECOVERABLE_BIN implies buffer[j] == token@[j] by {
        lemma_octet_of_sextets(v, token@, j);
    }
    lemma_damage_in_window(buffer, token@, MIN_RECOVERABLE_BIN as int, HASH_SIZE_BIN as int);
    lemma_repair(token, buffer);
}

/// Single-character correction: the text form of a token with one character
/// replaced validates to the token, as long as the new byte is not one that
/// reading passes over, or stands behind the first 55 characters. One changed
/// character touches at most two bytes.
pub proof fn lemma_text_correction(token: crate::Hash, i: int, c: u8)
    requires
        token.is_valid(),
        0 <= i < HASH_SIZE,
        !skipped(c) || MIN_RECOVERABLE <= i,
    ensures
        validated(token.spec_text().update(i, c)) == Ok::<Seq<u8>, HashValidationError>(token@),
{
    let text = token.spec_text();
    let input = text.update(i, c);
    if MIN_RECOVERABLE <= i {
        assert(input.subrange(0, MIN_RECOVERABLE as int) =~= text.subrange(
            0,
            MIN_RECOVERABLE as int,
        ));
        lemma_text_prefix(token, input);
    } else {
        assert forall|k: int| 0 <= k < input.len() implies !skipped(#[trigger] input[k]) by {
            lemma_sextet_is_small(token@, k);
            lemma_symbol_is_read_back(sextet(token@, k));
        }
        lemma_values_of_clean(input);
        let v = values(input);
        assert forall|k: int| 0 <= k < HASH_SIZE && k != i implies #[trigger] v[k] == sextet(
            token@,
            k,
        ) by {
            lemma_sextet_is_small(token@, k);
            lemma_symbol_is_read_back(sextet(token@, k));
        }
        let g = i / 4;
        let r = i % 4;
        let lo = if r == 0 {
            3 * g
        } else {
            3 * g + r - 1
        };
        let hi = if r == 3 {
            3 * g + 3
        } else {
            3 * g + r + 1
        };
        let buffer = unwritten(input);
        assert(decoded_count(input, HASH_SIZE_BIN as nat) == HASH_SIZE_BIN);
        assert forall|j: int| 0 <= j < HASH_SIZE_BIN && !(lo <= j < hi) implies buffer[j]
            == token@[j] by {
            let at = 4 * (j / 3) + j % 3;
            assert(at != i && at + 1 != i);
            lemma_octet_of_sextets(v, token@, j);
        }
        lemma_damage_in_window(buffer, token@, lo, hi);
        lemma_repair(token, buffer);
    }
}

/// Determinism: the token of a payload is one token.
pub proof fn lemma_hash_is_one(payload: Seq<u8>, a: crate::Hash, b: crate::Hash)
    requires
        hashed(payload) == Ok::<Seq<u8>, HashError>(a@),
        hashed(payload) == Ok::<Seq<u8>, HashError>(b@),
    ensures
        a == b,
{
    assert(a.inner =~= b.inner);
}

/// Length round trip: the token of a payload holds the packed length of the
/// payload. What that stands for is never less than the payload's length, and
/// is the payload's length exactly when the length is representable, as every
/// length below 512 is.
pub proof fn lemma_hash_holds_length(payload: Seq<u8>, token: crate::Hash)
    requires
        payload.len() <= usize::MAX,
        hashed(payload) == Ok::<Seq<u8>, HashError>(token@),
    ensures
        token.spec_length().len() == 2,
        token.spec_length()[0] as nat + 256 * token.spec_length()[1] as nat == packed(
            payload.len(),
        ),
        unpacked(packed(payload.len())) >= payload.len(),
        unpacked(packed(payload.len())) == payload.len() <==> representable(payload.len()),
{
    lemma_packing_rounds_up(payload.len());
    lemma_length_round_trip(payload.len());
    lemma_packed_fits(payload.len());
}

/// Length constancy: the binary form of a token has 48 bytes, and its text
/// form 64.
pub proof fn lemma_sizes(token: crate::Hash)
    ensures
        token@.len() == HASH_SIZE_BIN,
        token.spec_text().len() == HASH_SIZE,
{
}

/// Two tokens are equal exactly when they hold the same mixed digest, the
/// same parity and the same packed length.
pub proof fn lemma_equal_by_parts(a: crate::Hash, b: crate::Hash)
    ensures
        a == b <==> a.spec_digest() == b.spec_digest() && a.spec_parity() == b.spec_parity()
            && a.spec_length() == b.spec_length(),
{
    if a.spec_digest() == b.spec_digest() && a.spec_parity() == b.spec_parity()
        && a.spec_length() == b.spec_length() {
        assert forall|i: int| 0 <= i < HASH_SIZE_BIN implies a@[i] == b@[i] by {
            if i < 32 {
                assert(a.spec_digest()[i] == b.spec_digest()[i]);
            } else if i < PARITY_OFFSET {
                assert(a.spec_length()[i - 32] == b.spec_length()[i - 32]);
            } else {
                assert(a.spec_parity()[i - PARITY_OFFSET] == b.spec_parity()[i - PARITY_OFFSET]);
            }
        }
        assert(a.inner =~= b.inner);
    }
}

/// Taking the text form of a token apart gives the token's own fields.
pub proof fn lemma_parts_of_text(token: crate::Hash)
    ensures
        unpacked_text(token.spec_text()) == token@,
{
    lemma_text_is_read_back(token@, Seq::new(HASH_SIZE_BIN as nat, |i: int| 0u8));
}

} // verus!
