//! Random choices, drawn from the thread-local generator of `rand`.

use rand::Rng;
use vstd::prelude::*;

verus! {

/// Calls `Rng::gen_range` on `rand::thread_rng()` with the half-open range
/// from `low` to `high`. Taken on trust: the value lies in that range. Which
/// value it is depends on chance, so nothing more is said. The range must not
/// be empty, since `gen_range` panics on an empty one.
#[verifier::external_body]
pub(crate) fn random_in_range(low: i32, high: i32) -> (value: i32)
    requires
        low < high,
    ensures
        low <= value < high,
{
    rand::thread_rng().gen_range(low..high)
}

} // verus!
