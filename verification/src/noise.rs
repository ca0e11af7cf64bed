//! The random source. Nothing is known of a draw but the interval it lies in.

use vstd::prelude::*;

verus! {

#[verifier::external_type_specification]
#[verifier::external_body]
pub struct ExStdRng(rand::rngs::StdRng);

/// One draw of `rand::Rng::random_range` over the closed interval from `low`
/// to `high`.
///
/// Believed, not proved: the value lies in the interval. The generator
/// panics on an empty interval, which the precondition rules out. Which
/// value comes is left open, and so is what the draw does to the generator.
#[verifier::external_body]
pub(crate) fn draw_between(rng: &mut rand::rngs::StdRng, low: i64, high: i64) -> (drawn: i64)
    requires
        low <= high,
    ensures
        low <= drawn <= high,
{
    rand::Rng::random_range(rng, low..=high)
}

} // verus!
