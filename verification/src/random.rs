//! The one place where chance enters the rain.

use rand::Rng;
use vstd::prelude::*;

verus! {

/// Draws an integer from `low..high`.
///
/// Calls `rand::Rng::gen_range` with the half-open range `low..high` on the
/// generator that `rand::thread_rng` hands out. `gen_range` panics on an empty
/// range, which `requires` leaves out; what it returns lies in the range, and
/// that is all the contract claims: nothing is said of which value comes, nor
/// that two calls agree. (`thread_rng` itself panics where the operating
/// system gives it no seed; no argument decides that.)
#[verifier::external_body]
pub(crate) fn random_in_range(low: u64, high: u64) -> (drawn: u64)
    requires
        low < high,
    ensures
        low <= drawn < high,
{
    rand::thread_rng().gen_range(low..high)
}

} // verus!
