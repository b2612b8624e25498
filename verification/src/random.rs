//! The one place where the engine draws random numbers.

use vstd::prelude::*;

verus! {

/// Draws an integer from `low` up to but not including `high`.
///
/// This calls `rand::Rng::gen_range` on the generator of the current thread
/// (`rand::thread_rng`). The contract is taken on trust from the documentation
/// of that method: it panics unless `low < high`, and the value it returns lies
/// in the half-open range. Nothing is claimed about which value comes back.
#[verifier::external_body]
pub(crate) fn random_in_range(low: u16, high: u16) -> (res: u16)
    requires
        low < high,
    ensures
        low <= res < high,
{
    rand::Rng::gen_range(&mut rand::thread_rng(), low, high)
}

} // verus!
