//! Scene-level helpers.  A scene aggregate sits outside this kernel's
//! scope; only a small arithmetic helper lives here.

use vstd::prelude::*;

verus! {

/// The sum of two sizes.
pub fn add(left: usize, right: usize) -> (r: usize)
    requires
        left + right <= usize::MAX,
    ensures
        r == left + right,
{
    left + right
}

} // verus!
