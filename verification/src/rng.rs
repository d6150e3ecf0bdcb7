//! The engine's source of randomness, behind one trusted wrapper.

use vstd::prelude::*;

verus! {

/// Relies on `rand::random_range` over `0..n`: a value below `n` from the
/// thread-local generator. Nothing more is assumed of the outcome; every
/// caller is verified for every value below `n`. The range is non-empty by
/// the precondition, so the call cannot panic.
#[verifier::external_body]
pub fn rand_below(n: u64) -> (r: u64)
    requires
        1 <= n,
    ensures
        r < n,
{
    rand::random_range(0..n)
}

} // verus!
