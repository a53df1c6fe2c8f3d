//! A token as text, and the conversions between tokens, text and bytes.

use vstd::prelude::*;
use vstd::std_specs::convert::{FromSpecImpl, TryFromSpecImpl};
use vstd::string::{StrSliceExecFns, StringSliceAdditionalSpecFns};

use crate::error::HashValidationError;
use crate::laws::{lemma_binary_round_trip, lemma_text_round_trip};
use crate::text::{as_chars, encode, encoded, sextet, symbol};
use crate::token::validated;
use crate::{HASH_SIZE, HASH_SIZE_BIN};

verus! {

/// Every character of a text form is a letter, a digit, `-` or `_`.
pub proof fn lemma_text_is_ascii(bytes: Seq<u8>)
    ensures
        forall|i: int| 0 <= i < encoded(bytes).len() ==> #[trigger] encoded(bytes)[i] < 128,
        vstd::utf8::is_ascii_chars(as_chars(encoded(bytes))),
{
    assert forall|i: int| 0 <= i < encoded(bytes).len() implies #[trigger] encoded(bytes)[i]
        < 128 by {
        let v = sextet(bytes, i);
        assert(symbol(v) < 128);
    }
    assert forall|i: int| 0 <= i < as_chars(encoded(bytes)).len() implies '\0' <= #[trigger] as_chars(
        encoded(bytes),
    )[i] <= '\u{7f}' by {
        assert(encoded(bytes)[i] < 128);
    }
}

impl crate::Hash {
    /// The text form of this token: 64 characters of base64url.
    pub fn to_string(&self) -> (r: String)
        ensures
            r@ == as_chars(self.spec_text()),
            r@.len() == HASH_SIZE,
    {
        encode(&self.inner)
    }

    /// The text form of this token, as bytes. Validating it gives the token
    /// back.
    pub fn to_vec(&self) -> (r: Vec<u8>)
        ensures
            r@ == self.spec_text(),
            r@.len() == HASH_SIZE,
            validated(r@) == Ok::<Seq<u8>, HashValidationError>(self@),
    {
        let text = self.to_string();
        let r = text.as_str().as_bytes_vec();
        proof {
            use_type_invariant(self);
            lemma_text_round_trip(*self);
            lemma_text_is_ascii(self@);
            vstd::utf8::is_ascii_chars_encode_utf8(text@);
            assert(r@ =~= self.spec_text());
        }
        r
    }
}

impl From<crate::Hash> for [u8; HASH_SIZE] {
    /// The text form of `hash`, as bytes.
    fn from(hash: crate::Hash) -> (r: [u8; HASH_SIZE])
        ensures
            r@ == hash.spec_text(),
    {
        let text = hash.to_vec();
        let mut r = [0u8; HASH_SIZE];
        let mut i: usize = 0;
        while i < HASH_SIZE
            invariant
                i <= HASH_SIZE,
                text@.len() == HASH_SIZE,
                forall|j: int| 0 <= j < i ==> r@[j] == text@[j],
            decreases HASH_SIZE - i,
        {
            r[i] = text[i];
            i += 1;
        }
        assert(r@ =~= text@);
        r
    }
}

impl FromSpecImpl<crate::Hash> for [u8; HASH_SIZE] {
    open spec fn obeys_from_spec() -> bool {
        false
    }

    open spec fn from_spec(hash: crate::Hash) -> [u8; HASH_SIZE] {
        arbitrary()
    }
}

impl From<crate::Hash> for String {
    /// The text form of `value`.
    fn from(value: crate::Hash) -> (r: String)
        ensures
            r@ == as_chars(value.spec_text()),
    {
        value.to_string()
    }
}

impl FromSpecImpl<crate::Hash> for String {
    open spec fn obeys_from_spec() -> bool {
        false
    }

    open spec fn from_spec(value: crate::Hash) -> String {
        arbitrary()
    }
}

impl<'a> From<&'a crate::Hash> for String {
    /// The text form of `value`.
    fn from(value: &'a crate::Hash) -> (r: String)
        ensures
            r@ == as_chars(value.spec_text()),
    {
        value.to_string()
    }
}

impl<'a> FromSpecImpl<&'a crate::Hash> for String {
    open spec fn obeys_from_spec() -> bool {
        false
    }

    open spec fn from_spec(value: &'a crate::Hash) -> String {
        arbitrary()
    }
}

impl From<crate::Hash> for Vec<u8> {
    /// The text form of `value`, as bytes.
    fn from(value: crate::Hash) -> (r: Vec<u8>)
        ensures
            r@ == value.spec_text(),
    {
        value.to_vec()
    }
}

impl FromSpecImpl<crate::Hash> for Vec<u8> {
    open spec fn obeys_from_spec() -> bool {
        false
    }

    open spec fn from_spec(value: crate::Hash) -> Vec<u8> {
        arbitrary()
    }
}

impl<'a> From<&'a crate::Hash> for Vec<u8> {
    /// The text form of `hash`, as bytes.
    fn from(hash: &'a crate::Hash) -> (r: Vec<u8>)
        ensures
            r@ == hash.spec_text(),
    {
        hash.to_vec()
    }
}

impl<'a> FromSpecImpl<&'a crate::Hash> for Vec<u8> {
    open spec fn obeys_from_spec() -> bool {
        false
    }

    open spec fn from_spec(hash: &'a crate::Hash) -> Vec<u8> {
        arbitrary()
    }
}

impl<'a> TryFrom<&'a [u8]> for crate::Hash {
    type Error = HashValidationError;

    /// Validates `value`, which holds a token in either form.
    fn try_from(value: &'a [u8]) -> (r: Result<crate::Hash, HashValidationError>)
        ensures
            match r {
                Ok(h) => validated(value@) == Ok::<Seq<u8>, HashValidationError>(h@),
                Err(e) => validated(value@) == Err::<Seq<u8>, HashValidationError>(e),
            },
    {
        crate::Hash::validate(value)
    }
}

impl<'a> TryFromSpecImpl<&'a [u8]> for crate::Hash {
    open spec fn obeys_try_from_spec() -> bool {
        false
    }

    open spec fn try_from_spec(value: &'a [u8]) -> Result<crate::Hash, HashValidationError> {
        arbitrary()
    }
}

impl<'a> TryFrom<&'a str> for crate::Hash {
    type Error = HashValidationError;

    /// Validates the bytes of `value`, which holds a token in text form.
    fn try_from(value: &'a str) -> (r: Result<crate::Hash, HashValidationError>)
        ensures
            match r {
                Ok(h) => validated(value.spec_bytes()) == Ok::<Seq<u8>, HashValidationError>(h@),
                Err(e) => validated(value.spec_bytes()) == Err::<Seq<u8>, HashValidationError>(e),
            },
    {
        crate::Hash::validate(value.as_bytes())
    }
}

impl<'a> TryFromSpecImpl<&'a str> for crate::Hash {
    open spec fn obeys_try_from_spec() -> bool {
        false
    }

    open spec fn try_from_spec(value: &'a str) -> Result<crate::Hash, HashValidationError> {
        arbitrary()
    }
}

impl AsRef<[u8]> for crate::Hash {
    /// The binary form of this token. Validating it gives the token back.
    fn as_ref(&self) -> (r: &[u8])
        ensures
            r@ == self@,
            validated(r@) == Ok::<Seq<u8>, HashValidationError>(self@),
    {
        proof {
            use_type_invariant(self);
            lemma_binary_round_trip(*self);
        }
        &self.inner
    }
}

impl core::ops::Deref for crate::Hash {
    type Target = [u8; HASH_SIZE_BIN];

    /// The binary form of this token.
    fn deref(&self) -> (r: &[u8; HASH_SIZE_BIN])
        ensures
            r@ == self@,
    {
        &self.inner
    }
}

} // verus!
