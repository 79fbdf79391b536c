//! Comparing text.

use vstd::prelude::*;

verus! {

/// Compares two string slices with `str`'s `==`, which holds exactly when
/// both consist of the same characters in the same order.
#[verifier::external_body]
pub(crate) fn same_text(a: &str, b: &str) -> (same: bool)
    ensures
        same == (a@ == b@),
{
    a == b
}

} // verus!
