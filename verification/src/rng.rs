//! The injected randomness behind segment selection.

use vstd::prelude::*;

verus! {

/// Relies on rand::random_range over `0..n`: the draw is always below
/// `n`, and nothing more is assumed of it.  `n > 0` keeps the range
/// non-empty, which the call would otherwise refuse with a panic.
#[verifier::external_body]
pub(crate) fn random_below(n: u32) -> (r: u32)
    requires
        n > 0,
    ensures
        r < n,
{
    rand::random_range(0..n)
}

} // verus!
