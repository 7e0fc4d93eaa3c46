//! Draws from the thread's random number generator.
//!
//! Nothing is known of a draw but the range it falls in, so every caller is
//! verified for whatever value comes back.

use rand::Rng;
use vstd::prelude::*;

verus! {

/// Calls `rand::Rng::gen_range` on `rand::thread_rng()` with the range `0..3`.
/// The contract claims only that the axis drawn is 0, 1 or 2.
#[verifier::external_body]
pub(crate) fn random_axis() -> (axis: i32)
    ensures
        0 <= axis < 3,
{
    rand::thread_rng().gen_range(0..3)
}

/// Calls `rand::Rng::gen_range` on `rand::thread_rng()` with the range `0..n`,
/// which must not be empty.  The contract claims only that the index drawn is
/// below `n`.
#[verifier::external_body]
pub(crate) fn random_below(n: usize) -> (i: usize)
    requires
        n > 0,
    ensures
        i < n,
{
    rand::thread_rng().gen_range(0..n)
}

/// Calls `rand::Rng::gen_range` on `rand::thread_rng()` with the range
/// `0..=top`.  The contract claims only that the index drawn is at most `top`.
#[verifier::external_body]
pub(crate) fn random_up_to(top: usize) -> (i: usize)
    ensures
        i <= top,
{
    rand::thread_rng().gen_range(0..=top)
}

/// Calls `rand::Rng::gen_ratio` on `rand::thread_rng()` with the ratio 1 to 2:
/// the toss of a fair coin.  Nothing is claimed of the outcome.
#[verifier::external_body]
pub(crate) fn coin() -> (heads: bool)
{
    rand::thread_rng().gen_ratio(1, 2)
}

} // verus!
