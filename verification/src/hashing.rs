//! A token as a key of a hash map: what it feeds to a hasher.

use vstd::prelude::*;

verus! {

/// Calls `Hasher::write`, which feeds `bytes` to `state`. Nothing is known of
/// a hasher but what it is fed.
#[verifier::external_body]
fn feed<H: core::hash::Hasher>(state: &mut H, bytes: &[u8]) {
    state.write(bytes)
}

/// Calls `Hasher::write_u16`, which feeds `value` to `state`.
#[verifier::external_body]
fn feed_u16<H: core::hash::Hasher>(state: &mut H, value: u16) {
    state.write_u16(value)
}

impl core::hash::Hash for crate::Hash {
    /// Feeds the mixed digest, then the parity, then the 16-bit
    /// representation of the packed length: equal tokens feed the same.
    fn hash<H: core::hash::Hasher>(&self, state: &mut H) {
        feed(state, self.digest());
        feed(state, self.parity());
        feed_u16(state, self.length().to_inner_u16());
    }
}

} // verus!
