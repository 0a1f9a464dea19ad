//! The source of randomness.

use rand::Rng;
use vstd::prelude::*;

verus! {

/// Draws one number from the half-open range `low..high` with
/// `rand::Rng::gen_range` on the generator that `rand::thread_rng` returns.
///
/// Trusted, not proved: the number drawn lies in the range. Nothing is
/// claimed about which number it is, and two calls may differ. `gen_range`
/// panics on an empty range, which the precondition rules out.
#[verifier::external_body]
pub(crate) fn random_in_range(low: usize, high: usize) -> (drawn: usize)
    requires
        low < high,
    ensures
        low <= drawn < high,
{
    rand::thread_rng().gen_range(low..high)
}

} // verus!
