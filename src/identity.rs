//! The fixed identity text.
use vstd::prelude::*;
use vstd::string::StringSliceAdditionalSpecFns;
use crate::handle::TerminatedString;

verus! {

/// The identity text that [`identity_label`] hands out.
pub const IDENTITY_TEXT: &'static str = "mario ANTUNES";

/// A new handle holding the identity text; the same bytes on every call.
pub fn identity_label() -> (r: TerminatedString)
    ensures
        r.wf(),
        r@ == IDENTITY_TEXT.spec_bytes(),
{
    proof {
        reveal_strlit("mario ANTUNES");
        crate::handle::lemma_ascii_no_nul(IDENTITY_TEXT);
    }
    TerminatedString::from_text(IDENTITY_TEXT)
}

} // verus!
