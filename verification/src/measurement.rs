//! The measurement model: each true position is seen through an independent
//! bounded error.

use vstd::prelude::*;
use crate::error::FilterError;
use crate::fixed::{fits_i64, scaled_sqrt, sqrt_scaled};
use crate::noise::draw_between;

verus! {

/// Whether every observation `positions[i] + noise[i]` can be held.
pub open spec fn observations_representable(positions: Seq<i64>, noise: Seq<i64>) -> bool {
    forall|i: int| 0 <= i < positions.len() ==> fits_i64(#[trigger] positions[i] + noise[i])
}

/// Whether `noisy` holds one observation per position, each the position
/// plus its error.
pub open spec fn observed_through(positions: Seq<i64>, noise: Seq<i64>, noisy: Seq<i64>) -> bool {
    &&& noisy.len() == positions.len()
    &&& forall|i: int| 0 <= i < positions.len() ==> #[trigger] noisy[i] == positions[i] + noise[i]
}

/// Whether `outcome` is what observing `positions` through the errors
/// `noise` comes to: the observations, or the reason why there are none.
pub open spec fn is_observation(
    positions: Seq<i64>,
    noise: Seq<i64>,
    outcome: Result<Vec<i64>, FilterError>,
) -> bool {
    if !observations_representable(positions, noise) {
        outcome == Err::<Vec<i64>, FilterError>(FilterError::Overflow)
    } else {
        outcome.is_ok() && observed_through(positions, noise, outcome.unwrap()@)
    }
}

/// Whether every error is at most `sigma` in size.
pub open spec fn bounded_draws(noise: Seq<i64>, sigma: int) -> bool {
    forall|i: int| 0 <= i < noise.len() ==> -sigma <= #[trigger] noise[i] <= sigma
}

/// Observes each position through the error given for it.
pub fn observe_with_noise(positions: &Vec<i64>, noise: &Vec<i64>) -> (outcome: Result<
    Vec<i64>,
    FilterError,
>)
    requires
        noise@.len() == positions@.len(),
    ensures
        is_observation(positions@, noise@, outcome),
{
    let mut noisy: Vec<i64> = Vec::new();
    let mut i: usize = 0;
    while i < positions.len()
        invariant
            noise@.len() == positions@.len(),
            0 <= i <= positions@.len(),
            noisy@.len() == i,
            forall|j: int| 0 <= j < i ==> fits_i64(#[trigger] positions@[j] + noise@[j]),
            forall|j: int| 0 <= j < i ==> #[trigger] noisy@[j] == positions@[j] + noise@[j],
        decreases positions@.len() - i,
    {
        match positions[i].checked_add(noise[i]) {
            Some(z) => {
                noisy.push(z);
            },
            None => {
                return Err(FilterError::Overflow);
            },
        }
        i = i + 1;
    }
    Ok(noisy)
}

/// Observes each position through an error drawn from `rng`, at most the
/// square root of `measurement_variance` in size.
///
/// A negative variance is refused. Otherwise the observations are returned
/// unless one of them cannot be held, which cannot happen when every
/// position is at least that square root away from both ends of the range.
pub fn observe(positions: &Vec<i64>, measurement_variance: i64, rng: &mut rand::rngs::StdRng) -> (outcome:
    Result<Vec<i64>, FilterError>)
    ensures
        measurement_variance < 0 ==> outcome == Err::<Vec<i64>, FilterError>(
            FilterError::InvalidConfig,
        ),
        measurement_variance >= 0 ==> exists|noise: Seq<i64>|
            {
                &&& noise.len() == positions@.len()
                &&& bounded_draws(noise, scaled_sqrt(measurement_variance as int))
                &&& #[trigger] is_observation(positions@, noise, outcome)
            },
        outcome.is_ok() ==> {
            &&& outcome.unwrap()@.len() == positions@.len()
            &&& forall|i: int|
                0 <= i < positions@.len() ==> -scaled_sqrt(measurement_variance as int)
                    <= #[trigger] outcome.unwrap()@[i] - positions@[i] <= scaled_sqrt(
                    measurement_variance as int,
                )
        },
        measurement_variance >= 0 && (forall|i: int|
            0 <= i < positions@.len() ==> fits_i64(
                #[trigger] positions@[i] - scaled_sqrt(measurement_variance as int),
            ) && fits_i64(positions@[i] + scaled_sqrt(measurement_variance as int)))
            ==> outcome.is_ok(),
{
    if measurement_variance < 0 {
        return Err(FilterError::InvalidConfig);
    }
    let sigma: i64 = sqrt_scaled(measurement_variance);
    let mut noise: Vec<i64> = Vec::new();
    let mut i: usize = 0;
    while i < positions.len()
        invariant
            0 <= sigma,
            0 <= i <= positions@.len(),
            noise@.len() == i,
            bounded_draws(noise@, sigma as int),
        decreases positions@.len() - i,
    {
        let delta: i64 = draw_between(rng, -sigma, sigma);
        noise.push(delta);
        i = i + 1;
    }
    let outcome = observe_with_noise(positions, &noise);
    outcome
}

} // verus!
