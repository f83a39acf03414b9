//! What this crate takes on trust from std about text.
use vstd::prelude::*;

verus! {

/// Relies on std's `PartialEq for str`: two string slices are equal exactly when they hold the
/// same characters.
pub assume_specification[ <str as core::cmp::PartialEq>::eq ](a: &str, b: &str) -> (r: bool)
    ensures
        r == (a@ == b@),
;

/// Whether two string slices hold the same characters.
pub fn same_text(a: &str, b: &str) -> (r: bool)
    ensures
        r == (a@ == b@),
{
    <str as core::cmp::PartialEq>::eq(a, b)
}

} // verus!
