//! The one source of randomness of the library.

use rand::Rng;
use vstd::prelude::*;

verus! {

/// A random index below `bound`, from `rand::Rng::gen_range` on the generator that
/// `rand::thread_rng` hands out, with the half-open range `0..bound`.
///
/// Trusted: `gen_range` refuses an empty range, so `bound` must be positive, and
/// the value it returns lies in the range. Nothing else is claimed of the value:
/// two calls with the same bound may differ. The first use of the thread's
/// generator seeds it from the operating system and stops the program if the
/// system has no entropy to give.
#[verifier::external_body]
pub(crate) fn random_below(bound: usize) -> (pick: usize)
    requires
        bound > 0,
    ensures
        pick < bound,
{
    rand::thread_rng().gen_range(0..bound)
}

} // verus!
