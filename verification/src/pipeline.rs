//! One whole run: the truth is simulated, observed through noise, and
//! estimated back from the observations alone.

use vstd::prelude::*;
use crate::config::SimulationConfig;
use crate::error::FilterError;
use crate::estimator::{estimate, estimate_bound, filtered_means, matches_means};
use crate::estimator::{lemma_filter_bounded, model_stride, observations_within};
use crate::fixed::{lemma_scaled_product_bounded, lemma_scaled_sqrt_nonnegative, magnitude};
use crate::measurement::{bounded_draws, observations_representable, observe, observed_through};
use crate::trajectory::Trajectories;
use crate::truth::{follows_walk, simulate, truth_at, truth_representable, unit_draws};
use crate::truth::{lemma_walk_bounded, position_bound, walk_stays_in_range};

verus! {

/// The true positions of the walk driven by `noise`, one per step.
pub open spec fn true_positions(config: SimulationConfig, noise: Seq<i64>) -> Seq<i64> {
    Seq::new((config.steps() + 1) as nat, |n: int| truth_at(config, noise, n).position as i64)
}

/// The positions seen through the errors `errors`.
pub open spec fn noisy_positions(positions: Seq<i64>, errors: Seq<i64>) -> Seq<i64> {
    Seq::new(positions.len(), |i: int| (positions[i] + errors[i]) as i64)
}

/// Whether `outcome` is what a run comes to when `noise` perturbs the true
/// velocity and `errors` corrupt the observations. The draws decide
/// everything: the truth follows the walk, the observations are the true
/// positions plus their errors, and the estimates are the filtered means of
/// those observations. The first stage that fails gives the error.
pub open spec fn is_run(
    config: SimulationConfig,
    noise: Seq<i64>,
    errors: Seq<i64>,
    outcome: Result<Trajectories, FilterError>,
) -> bool {
    if !config.valid() {
        outcome == Err::<Trajectories, FilterError>(FilterError::InvalidConfig)
    } else if !truth_representable(config, noise, config.steps()) {
        outcome == Err::<Trajectories, FilterError>(FilterError::Overflow)
    } else if !observations_representable(true_positions(config, noise), errors) {
        outcome == Err::<Trajectories, FilterError>(FilterError::Overflow)
    } else {
        match filtered_means(
            config,
            noisy_positions(true_positions(config, noise), errors),
        ) {
            Err(e) => outcome == Err::<Trajectories, FilterError>(e),
            Ok(means) => {
                &&& outcome.is_ok()
                &&& follows_walk(
                    config,
                    noise,
                    outcome.unwrap().positions@,
                    outcome.unwrap().velocities@,
                )
                &&& observed_through(
                    outcome.unwrap().positions@,
                    errors,
                    outcome.unwrap().observations@,
                )
                &&& matches_means(
                    Ok::<Vec<i64>, FilterError>(outcome.unwrap().estimates),
                    Ok::<Seq<int>, FilterError>(means),
                )
            },
        }
    }
}

/// Every sequence of a run that succeeds has one sample for step 0 and one
/// for each step after it.
pub proof fn lemma_run_lengths(
    config: SimulationConfig,
    noise: Seq<i64>,
    errors: Seq<i64>,
    outcome: Result<Trajectories, FilterError>,
)
    requires
        is_run(config, noise, errors, outcome),
        outcome.is_ok(),
    ensures
        outcome.unwrap().all_of_len(config.steps() + 1),
{
}

/// Whether a run has room enough that no draw can make it fail: the walk
/// stays in range, the measurements are inexact, every observation can be
/// held, and so can every predicted belief.
pub open spec fn run_stays_in_range(config: SimulationConfig) -> bool {
    &&& walk_stays_in_range(config)
    &&& config.measurement_variance > 0
    &&& config.measurement_variance + config.model_variance <= i64::MAX
    &&& estimate_bound(
        config,
        position_bound(config) + config.measurement_sigma(),
        config.steps(),
    ) <= i64::MAX
}

/// Runs the whole pipeline with draws taken from `rng`.
///
/// Whatever is drawn, the outcome is the run that those draws determine.
/// A run that succeeds has one sample per step in each of its four
/// sequences.
pub fn run(config: &SimulationConfig, rng: &mut rand::rngs::StdRng) -> (outcome: Result<
    Trajectories,
    FilterError,
>)
    ensures
        exists|noise: Seq<i64>, errors: Seq<i64>|
            {
                &&& config.valid() ==> noise.len() == config.steps() && errors.len()
                    == config.steps() + 1
                &&& unit_draws(noise)
                &&& bounded_draws(errors, config.measurement_sigma())
                &&& #[trigger] is_run(*config, noise, errors, outcome)
            },
        outcome.is_ok() ==> outcome.unwrap().all_of_len(config.steps() + 1),
        !config.valid() <==> outcome == Err::<Trajectories, FilterError>(
            FilterError::InvalidConfig,
        ),
        config.valid() && run_stays_in_range(*config) ==> outcome.is_ok(),
        config.valid() && config.measurement_variance == 0 ==> outcome.is_err(),
{
    if config.validate().is_err() {
        assert(is_run(
            *config,
            Seq::<i64>::empty(),
            Seq::<i64>::empty(),
            Err(FilterError::InvalidConfig),
        ));
        return Err(FilterError::InvalidConfig);
    }
    let simulated = simulate(config, rng);
    let ghost noise: Seq<i64> = choose|noise: Seq<i64>|
        {
            &&& noise.len() == config.steps()
            &&& unit_draws(noise)
            &&& #[trigger] crate::truth::is_simulation(*config, noise, simulated)
        };
    let (positions, velocities) = match simulated {
        Ok(pair) => pair,
        Err(e) => {
            proof {
                let quiet = Seq::new((config.steps() + 1) as nat, |i: int| 0i64);
                lemma_scaled_sqrt_nonnegative(config.measurement_variance as int);
                assert(is_run(*config, noise, quiet, Err(e)));
            }
            return Err(e);
        },
    };
    assert(positions@ =~= true_positions(*config, noise));
    let ghost reach = position_bound(*config) + config.measurement_sigma();
    proof {
        lemma_scaled_sqrt_nonnegative(config.measurement_variance as int);
        assert forall|n: int| 0 <= n <= config.steps() implies magnitude(
            #[trigger] positions@[n] as int,
        ) <= position_bound(*config) by {
            lemma_walk_bounded(*config, noise, n);
        }
        lemma_scaled_product_bounded(0, 0, config.dt as int);
        assert(config.steps() * model_stride(*config) >= 0) by (nonlinear_arith)
            requires
                config.steps() >= 0,
                model_stride(*config) >= 0,
        ;
    }
    let observed = observe(&positions, config.measurement_variance, rng);
    let ghost errors: Seq<i64> = choose|errors: Seq<i64>|
        {
            &&& errors.len() == positions@.len()
            &&& bounded_draws(errors, config.measurement_sigma())
            &&& #[trigger] crate::measurement::is_observation(positions@, errors, observed)
        };
    let observations = match observed {
        Ok(noisy) => noisy,
        Err(e) => {
            assert(is_run(*config, noise, errors, Err(e)));
            return Err(e);
        },
    };
    assert(observations@ =~= noisy_positions(true_positions(*config, noise), errors));
    proof {
        if run_stays_in_range(*config) {
            lemma_filter_bounded(*config, observations@, reach, config.steps());
        }
    }
    let estimates = match estimate(&observations, config) {
        Ok(means) => means,
        Err(e) => {
            assert(is_run(*config, noise, errors, Err(e)));
            return Err(e);
        },
    };
    let outcome = Ok(Trajectories { positions, velocities, observations, estimates });
    assert(is_run(*config, noise, errors, outcome));
    outcome
}

} // verus!
