//! The lexicographic order of byte sequences of one length.

use vstd::prelude::*;

use crate::{DIGEST_SIZE, HASH_SIZE_BIN};

verus! {

/// `a` comes before `b`: at the first position where they differ, `a` holds
/// the smaller byte.
pub open spec fn precedes(a: Seq<u8>, b: Seq<u8>) -> bool {
    exists|k: int|
        0 <= k < a.len() && k < b.len() && #[trigger] a[k] < b[k] && a.subrange(0, k)
            == b.subrange(0, k)
}

/// How one sequence stands to another of the same length.
#[derive(Clone, Copy, Debug, PartialEq, Eq, Structural)]
pub enum Rank {
    /// It comes before the other.
    Before,
    /// The two are equal.
    Same,
    /// It comes after the other.
    After,
}

/// How `a` stands to `b`.
pub open spec fn rank(a: Seq<u8>, b: Seq<u8>) -> Rank {
    if a == b {
        Rank::Same
    } else if precedes(a, b) {
        Rank::Before
    } else {
        Rank::After
    }
}

/// No sequence comes before itself, and of two sequences at most one comes
/// before the other.
pub proof fn lemma_precedes_asymmetric(a: Seq<u8>, b: Seq<u8>)
    ensures
        !(precedes(a, b) && precedes(b, a)),
        a == b ==> !precedes(a, b),
{
    if precedes(a, b) && precedes(b, a) {
        let k = choose|k: int|
            0 <= k < a.len() && k < b.len() && #[trigger] a[k] < b[k] && a.subrange(0, k)
                == b.subrange(0, k);
        let m = choose|m: int|
            0 <= m < b.len() && m < a.len() && #[trigger] b[m] < a[m] && b.subrange(0, m)
                == a.subrange(0, m);
        if k < m {
            assert(b.subrange(0, m)[k] == a.subrange(0, m)[k]);
        } else if m < k {
            assert(a.subrange(0, k)[m] == b.subrange(0, k)[m]);
        }
    }
}

/// Of two different sequences of one length, one comes before the other.
pub proof fn lemma_precedes_total(a: Seq<u8>, b: Seq<u8>)
    requires
        a.len() == b.len(),
    ensures
        a == b || precedes(a, b) || precedes(b, a),
{
    lemma_scan(a, b, 0);
}

proof fn lemma_scan(a: Seq<u8>, b: Seq<u8>, k: int)
    requires
        a.len() == b.len(),
        0 <= k <= a.len(),
        forall|j: int| 0 <= j < k ==> a[j] == b[j],
    ensures
        a == b || precedes(a, b) || precedes(b, a),
    decreases a.len() - k,
{
    if k == a.len() {
        assert(a =~= b);
    } else if a[k] == b[k] {
        lemma_scan(a, b, k + 1);
    } else {
        assert(a.subrange(0, k) =~= b.subrange(0, k));
        if a[k] < b[k] {
            assert(precedes(a, b));
        } else {
            assert(b[k] < a[k]);
            assert(precedes(b, a));
        }
    }
}

/// Coming before is transitive.
pub proof fn lemma_precedes_transitive(a: Seq<u8>, b: Seq<u8>, c: Seq<u8>)
    requires
        precedes(a, b),
        precedes(b, c),
    ensures
        precedes(a, c),
{
    let k = choose|k: int|
        0 <= k < a.len() && k < b.len() && #[trigger] a[k] < b[k] && a.subrange(0, k)
            == b.subrange(0, k);
    let m = choose|m: int|
        0 <= m < b.len() && m < c.len() && #[trigger] b[m] < c[m] && b.subrange(0, m)
            == c.subrange(0, m);
    let n = if k <= m {
        k
    } else {
        m
    };
    assert forall|j: int| 0 <= j < n implies a.subrange(0, n)[j] == c.subrange(0, n)[j] by {
        assert(a.subrange(0, k)[j] == b.subrange(0, k)[j]);
        assert(b.subrange(0, m)[j] == c.subrange(0, m)[j]);
    }
    assert(a.subrange(0, n) =~= c.subrange(0, n));
    if k < m {
        assert(b.subrange(0, m)[k] == c.subrange(0, m)[k]);
    } else if m < k {
        assert(a.subrange(0, k)[m] == b.subrange(0, k)[m]);
    }
    assert(a[n] < c[n]);
}

/// Where two sequences differ within their first `n` bytes, they stand to
/// each other as those `n` bytes do.
pub proof fn lemma_precedes_by_prefix(a: Seq<u8>, b: Seq<u8>, n: int)
    requires
        0 <= n <= a.len(),
        n <= b.len(),
        precedes(a.subrange(0, n), b.subrange(0, n)),
    ensures
        precedes(a, b),
{
    let x = a.subrange(0, n);
    let y = b.subrange(0, n);
    let k = choose|k: int|
        0 <= k < x.len() && k < y.len() && #[trigger] x[k] < y[k] && x.subrange(0, k)
            == y.subrange(0, k);
    assert(a[k] == x[k] && b[k] == y[k]);
    assert forall|j: int| 0 <= j < k implies a.subrange(0, k)[j] == b.subrange(0, k)[j] by {
        assert(x.subrange(0, k)[j] == y.subrange(0, k)[j]);
    }
    assert(a.subrange(0, k) =~= b.subrange(0, k));
}

/// Where the mixed digests of two tokens differ, the tokens stand to each
/// other as their mixed digests do.
pub proof fn lemma_digest_decides(a: crate::Hash, b: crate::Hash)
    requires
        precedes(a.spec_digest(), b.spec_digest()),
    ensures
        precedes(a@, b@),
{
    lemma_precedes_by_prefix(a@, b@, DIGEST_SIZE as int);
}

/// Finds how `a` stands to `b`, byte by byte from the front.
pub fn rank_of(a: &[u8; HASH_SIZE_BIN], b: &[u8; HASH_SIZE_BIN]) -> (r: Rank)
    ensures
        r == rank(a@, b@),
{
    let mut i: usize = 0;
    while i < HASH_SIZE_BIN
        invariant
            i <= HASH_SIZE_BIN,
            forall|j: int| 0 <= j < i ==> a@[j] == b@[j],
        decreases HASH_SIZE_BIN - i,
    {
        if a[i] != b[i] {
            proof {
                assert(a@.subrange(0, i as int) =~= b@.subrange(0, i as int));
                lemma_precedes_asymmetric(a@, b@);
            }
            if a[i] < b[i] {
                assert(precedes(a@, b@));
                return Rank::Before;
            } else {
                assert(b@[i as int] < a@[i as int]);
                assert(precedes(b@, a@));
                return Rank::After;
            }
        }
        i += 1;
    }
    assert(a@ =~= b@);
    Rank::Same
}

} // verus!
