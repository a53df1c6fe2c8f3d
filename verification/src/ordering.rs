//! Equality and order of tokens: those of their binary forms.

use core::cmp::Ordering;
use vstd::prelude::*;
use vstd::std_specs::cmp::{PartialEqSpecImpl, PartialOrdSpecImpl};

use crate::lexical::{
    lemma_digest_decides, lemma_precedes_asymmetric, lemma_precedes_total,
    lemma_precedes_transitive, precedes, rank, rank_of, Rank,
};

verus! {

/// How the bytes `a` stand to the bytes `b` of the same length: `Equal` where
/// they are the same, else `Less` or `Greater` by the first byte that
/// differs.
pub open spec fn order(a: Seq<u8>, b: Seq<u8>) -> Ordering {
    match rank(a, b) {
        Rank::Before => Ordering::Less,
        Rank::Same => Ordering::Equal,
        Rank::After => Ordering::Greater,
    }
}

impl PartialEq for crate::Hash {
    /// Two tokens are equal when their binary forms are.
    fn eq(&self, other: &crate::Hash) -> (r: bool) {
        match rank_of(&self.inner, &other.inner) {
            Rank::Same => true,
            _ => false,
        }
    }
}

impl PartialEqSpecImpl for crate::Hash {
    open spec fn obeys_eq_spec() -> bool {
        true
    }

    open spec fn eq_spec(&self, other: &crate::Hash) -> bool {
        self@ == other@
    }
}

impl PartialOrd for crate::Hash {
    /// Tokens are ordered as their binary forms are, byte by byte.
    fn partial_cmp(&self, other: &crate::Hash) -> (r: Option<Ordering>) {
        Some(self.cmp(other))
    }
}

impl PartialOrdSpecImpl for crate::Hash {
    open spec fn obeys_partial_cmp_spec() -> bool {
        true
    }

    open spec fn partial_cmp_spec(&self, other: &crate::Hash) -> Option<Ordering> {
        Some(order(self@, other@))
    }
}

impl crate::Hash {
    /// Compares two tokens by their binary forms, so that the mixed digest
    /// decides wherever two tokens differ in it.
    pub fn cmp(&self, other: &crate::Hash) -> (r: Ordering)
        ensures
            r == order(self@, other@),
    {
        match rank_of(&self.inner, &other.inner) {
            Rank::Before => Ordering::Less,
            Rank::Same => Ordering::Equal,
            Rank::After => Ordering::Greater,
        }
    }
}

/// Equal tokens, and no others, compare as `Equal`.
pub proof fn lemma_order_equal(a: crate::Hash, b: crate::Hash)
    ensures
        order(a@, b@) == Ordering::Equal <==> a@ == b@,
        a@ == b@ <==> a == b,
{
    lemma_precedes_asymmetric(a@, b@);
    if a@ == b@ {
        assert(a.inner =~= b.inner);
    }
}

/// The order is total and antisymmetric: of two tokens that are not equal,
/// one is `Less` than the other, which is then `Greater` than it.
pub proof fn lemma_order_total(a: crate::Hash, b: crate::Hash)
    ensures
        order(a@, b@) == Ordering::Less <==> order(b@, a@) == Ordering::Greater,
        order(a@, b@) == Ordering::Equal <==> order(b@, a@) == Ordering::Equal,
{
    lemma_precedes_asymmetric(a@, b@);
    lemma_precedes_asymmetric(b@, a@);
    lemma_precedes_total(a@, b@);
}

/// The order is transitive.
pub proof fn lemma_order_transitive(a: crate::Hash, b: crate::Hash, c: crate::Hash)
    requires
        order(a@, b@) == Ordering::Less,
        order(b@, c@) == Ordering::Less,
    ensures
        order(a@, c@) == Ordering::Less,
{
    lemma_precedes_transitive(a@, b@, c@);
    lemma_precedes_asymmetric(a@, c@);
}

/// Tokens whose mixed digests differ are ordered as their mixed digests.
pub proof fn lemma_order_by_digest(a: crate::Hash, b: crate::Hash)
    requires
        precedes(a.spec_digest(), b.spec_digest()),
    ensures
        order(a@, b@) == Ordering::Less,
{
    lemma_digest_decides(a, b);
    lemma_precedes_asymmetric(a@, b@);
}

} // verus!
