use vstd::prelude::*;

verus! {

/// Whether two texts are equal under Unicode compatibility caseless
/// matching.
pub uninterp spec fn caseless_match(a: Seq<char>, b: Seq<char>) -> bool;

/// Relies on `caseless::compatibility_caseless_match_str`: it compares the
/// compatibility-case-folded forms (NFD, case fold, NFKD, case fold, NFKD)
/// of the two strings, so the result depends on the two texts alone.
#[verifier::external_body]
pub(crate) fn caseless_eq(a: &str, b: &str) -> (r: bool)
    ensures
        r == caseless_match(a@, b@),
{
    caseless::compatibility_caseless_match_str(a, b)
}

} // verus!
