//! The library's use of randomness: picking one of several equally good
//! items.  Nothing is promised of which value comes back beyond its
//! range.

use vstd::prelude::*;

verus! {

/// Relies on fastrand::usize: the result lies below the bound; an empty
/// range would make the call panic, so the bound must be positive.
#[verifier::external_body]
pub fn pick_index(n: usize) -> (r: usize)
    requires
        n > 0,
    ensures
        r < n,
{
    fastrand::usize(..n)
}

} // verus!
