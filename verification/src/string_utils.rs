//! Small string helpers used by callers before they touch the catalog.

use vstd::prelude::*;

verus! {

/// The given character sequence with leading and trailing whitespace removed,
/// as `str::trim` computes it. The result depends on the characters alone.
pub uninterp spec fn trimmed(s: Seq<char>) -> Seq<char>;

/// Relies on `str::trim`: it returns the slice with leading and trailing
/// whitespace removed, a function of the characters alone.
#[verifier::external_body]
fn trim_str(s: &str) -> (r: &str)
    ensures
        r@ == trimmed(s@),
        s@.len() == 0 ==> r@.len() == 0,
{
    s.trim()
}

/// Checks if a string is empty (after trimming whitespace).
///
/// Returns `true` if the string is empty or contains only whitespace,
/// `false` otherwise.
pub fn is_empty_string(s: &str) -> (r: bool)
    ensures
        r == (trimmed(s@).len() == 0),
{
    trim_str(s).is_empty()
}

} // verus!
