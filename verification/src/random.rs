//! The source of random numbers.

use rand::Rng;
use vstd::prelude::*;

verus! {

/// Draws a number from the thread-local generator of the `rand` crate, by
/// `rand::thread_rng()` and `rand::Rng::gen_range(low, high)`.
///
/// Trusted, not proved: `gen_range` documents that the value lies in the
/// half-open range from `low` (inclusive) to `high` (exclusive), and that it
/// panics when `low >= high`, which the precondition rules out. Nothing else
/// is claimed of the value: two calls may differ.
#[verifier::external_body]
pub(crate) fn random_in_range(low: u16, high: u16) -> (value: u16)
    requires
        low < high,
    ensures
        low <= value < high,
{
    rand::thread_rng().gen_range(low, high)
}

} // verus!
