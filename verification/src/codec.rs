//! The Reed–Solomon codec that protects a token's frame.
//!
//! The codec itself is `ps_ecc`. This module calls it and states what the rest
//! of the library relies on: that a parity it generates, and a pair it has
//! repaired, can be recovered from as many byte errors as the parity has pairs
//! of bytes.

use vstd::prelude::*;

verus! {

/// What `ReedSolomon::generate_parity` returns for `message`, on a codec made
/// by `ReedSolomon::new(strength)`.
pub uninterp spec fn rs_parity(strength: u8, message: Seq<u8>) -> Result<
    Seq<u8>,
    ps_ecc::RSGenerateParityError,
>;

/// What `ReedSolomon::correct_detached_in_place` does with `parity` and
/// `data`: what it returns, then the parity and the data as it leaves them.
pub uninterp spec fn rs_correct(parity: Seq<u8>, data: Seq<u8>) -> (
    Result<(), ps_ecc::RSDecodeError>,
    Seq<u8>,
    Seq<u8>,
);

/// The number of positions at which `a` and `b` hold different bytes, for two
/// sequences of one length.
pub open spec fn mismatches(a: Seq<u8>, b: Seq<u8>) -> nat
    decreases a.len(),
{
    if a.len() == 0 || b.len() == 0 {
        0
    } else {
        mismatches(a.drop_last(), b.drop_last()) + if a.last() != b.last() {
            1nat
        } else {
            0nat
        }
    }
}

/// `(parity, data)` can be recovered: correction turns every pair of the same
/// lengths that differs from it in at most one byte for each two bytes of
/// parity back into it, and so leaves the pair itself as it is.
pub open spec fn recoverable(parity: Seq<u8>, data: Seq<u8>) -> bool {
    forall|p: Seq<u8>, d: Seq<u8>|
        p.len() == parity.len() && d.len() == data.len() && mismatches(p, parity) + mismatches(
            d,
            data,
        ) <= parity.len() / 2 ==> #[trigger] rs_correct(p, d) == (
            Ok::<(), ps_ecc::RSDecodeError>(()),
            parity,
            data,
        )
}

/// Calls `ReedSolomon::new` and, on the codec it gives, `generate_parity`.
///
/// Trusted: `new` refuses a strength above 63 and no other; the result of
/// `generate_parity` is `rs_parity`; a parity that was generated has two bytes
/// for each unit of strength, and with its message it is recoverable.
#[verifier::external_body]
pub(crate) fn generate_parity(strength: u8, message: &[u8]) -> (r: Option<
    Result<Vec<u8>, ps_ecc::RSGenerateParityError>,
>)
    ensures
        r is Some <==> strength <= 63,
        r matches Some(Ok(parity)) ==> rs_parity(strength, message@) matches Ok(p) && p == parity@,
        r matches Some(Ok(parity)) ==> parity@.len() == 2 * strength,
        r matches Some(Ok(parity)) ==> recoverable(parity@, message@),
        r matches Some(Err(e)) ==> rs_parity(strength, message@) matches Err(f) && f == e,
{
    match ps_ecc::ReedSolomon::new(strength) {
        Ok(codec) => Some(
            match codec.generate_parity(message) {
                Ok(parity) => Ok(parity.as_slice().to_vec()),
                Err(e) => Err(e),
            },
        ),
        Err(_) => None,
    }
}

/// Calls `ReedSolomon::correct_detached_in_place`.
///
/// Trusted: what the call returns and leaves in the two slices is
/// `rs_correct` of what they held; the slices keep their lengths; and where it
/// returns `Ok`, what it leaves is recoverable.
#[verifier::external_body]
pub(crate) fn correct_detached(parity: &mut [u8], data: &mut [u8]) -> (r: Result<
    (),
    ps_ecc::RSDecodeError,
>)
    ensures
        (r, final(parity)@, final(data)@) == rs_correct(old(parity)@, old(data)@),
        final(parity)@.len() == old(parity)@.len(),
        final(data)@.len() == old(data)@.len(),
        r is Ok ==> recoverable(final(parity)@, final(data)@),
{
    ps_ecc::ReedSolomon::correct_detached_in_place(parity, data)
}

/// Two sequences that agree everywhere outside the window from `lo` up to
/// `hi` differ in no more positions than the window has.
pub proof fn lemma_mismatches_in_window(a: Seq<u8>, b: Seq<u8>, lo: int, hi: int)
    requires
        a.len() == b.len(),
        0 <= lo <= hi <= a.len(),
        forall|i: int| 0 <= i < a.len() && !(lo <= i < hi) ==> a[i] == b[i],
    ensures
        mismatches(a, b) <= hi - lo,
    decreases a.len(),
{
    if a.len() > 0 {
        let n = a.len() - 1;
        if hi <= n {
            lemma_mismatches_in_window(a.drop_last(), b.drop_last(), lo, hi);
        } else if lo <= n {
            lemma_mismatches_in_window(a.drop_last(), b.drop_last(), lo, n);
        } else {
            lemma_mismatches_in_window(a.drop_last(), b.drop_last(), n, n);
        }
    }
}

} // verus!
