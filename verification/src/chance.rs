use vstd::prelude::*;
use rand::Rng;

verus! {

/// A uniformly random index in `low..high`, drawn from the thread-local
/// generator of `rand` (`rand::rng().random_range(low..high)`). The
/// contract claims only that the result lies in the range, which is what
/// `random_range` documents for a non-empty range; it panics on an empty
/// one, which `requires` rules out.
#[verifier::external_body]
pub(crate) fn random_index(low: usize, high: usize) -> (r: usize)
    requires
        low < high,
    ensures
        low <= r < high,
{
    rand::rng().random_range(low..high)
}

/// A random `u64` from `rand::random`. Every value is possible, so the
/// contract claims nothing about it.
#[verifier::external_body]
pub(crate) fn random_u64() -> (r: u64) {
    rand::random::<u64>()
}

} // verus!
