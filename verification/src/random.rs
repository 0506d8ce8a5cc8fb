//! The one place where chance enters the library.
use rand::Rng;
use vstd::prelude::*;

verus! {

/// Draws a number from `0..bound` with `rand::Rng::gen_range` on the
/// generator that `rand::thread_rng` hands out. Trusted: the number drawn is
/// below `bound`. Which number it is differs from call to call.
#[verifier::external_body]
pub(crate) fn random_below(bound: usize) -> (pick: usize)
    requires
        bound > 0,
    ensures
        pick < bound,
{
    rand::thread_rng().gen_range(0..bound)
}

} // verus!
