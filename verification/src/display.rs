//! A token printed: its text form.

use vstd::prelude::*;

verus! {

/// The formatter of `core::fmt`, carried through unread.
#[verifier::external_type_specification]
#[verifier::external_body]
pub struct ExFormatter<'a>(core::fmt::Formatter<'a>);

/// The error of `core::fmt`, carried through unread.
#[verifier::external_type_specification]
#[verifier::external_body]
pub struct ExFmtError(core::fmt::Error);

impl core::fmt::Display for crate::Hash {
    /// Calls `encode_into` of `ps_base64`, which writes the text form of the
    /// 48 bytes to the formatter. Nothing is stated of a formatter.
    #[verifier::external_body]
    fn fmt(&self, f: &mut core::fmt::Formatter<'_>) -> core::fmt::Result {
        ps_base64::encode_into(&self.inner, f)
    }
}

} // verus!
