//! The library's one source of randomness, used for food placement.

use vstd::prelude::*;

verus! {

/// Relies on rand::random: a value drawn from the process-wide generator.
/// Nothing is promised of the result.
#[verifier::external_body]
pub(crate) fn random_usize() -> usize {
    rand::random::<usize>()
}

/// A machine-chosen value below `n`.
pub(crate) fn random_below(n: usize) -> (r: usize)
    requires
        1 <= n,
    ensures
        r < n,
{
    random_usize() % n
}

} // verus!
