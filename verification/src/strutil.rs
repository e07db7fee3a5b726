//! Small string helpers shared across the crate.

use vstd::prelude::*;

verus! {

/// Relies on str's PartialEq: equal exactly when the two strings hold the
/// same characters.
#[verifier::external_body]
pub fn str_eq(a: &str, b: &str) -> (r: bool)
    ensures
        r == (a@ == b@),
{
    a == b
}

} // verus!
