//! The glob-syntax detection predicate, consumed from the `is-glob` crate.

use vstd::prelude::*;

verus! {

/// Whether a pattern string contains glob syntax (`*`, `?`, character
/// classes, and so on). The name stands for what `is_glob::is_glob` returns:
/// a function of the pattern's characters alone.
pub uninterp spec fn is_glob_spec(s: Seq<char>) -> bool;

/// Relies on `is_glob::is_glob`: detects glob syntax in a pattern string,
/// deterministically from the characters alone.
#[verifier::external_body]
pub fn is_glob_str(s: &String) -> (r: bool)
    ensures
        r == is_glob_spec(s@),
{
    is_glob::is_glob(s)
}

} // verus!
