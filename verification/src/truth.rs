//! The ground truth: a random walk on velocity, integrated into position.

use vstd::prelude::*;
use crate::config::SimulationConfig;
use crate::error::FilterError;
use crate::fixed::{fits_i64, magnitude, mul_scaled_wide, scaled_product, SCALE};
use crate::fixed::{
    lemma_scaled_product_bounded, lemma_scaled_product_unit, lemma_scaled_sqrt_nonnegative,
};
use crate::noise::draw_between;

verus! {

/// Position and velocity over unbounded integers.
pub struct KinematicModel {
    pub position: int,
    pub velocity: int,
}

impl KinematicModel {
    /// Whether both coordinates can be held in an `i64`.
    pub open spec fn representable(self) -> bool {
        fits_i64(self.position) && fits_i64(self.velocity)
    }

    /// One step of the walk: the velocity is perturbed by the draw `epsilon`
    /// scaled by `sigma`, and the position then moves at the new velocity
    /// for a time `dt`.
    pub open spec fn step(self, epsilon: int, sigma: int, dt: int) -> KinematicModel {
        let velocity = self.velocity + scaled_product(epsilon, sigma);
        KinematicModel { position: self.position + scaled_product(velocity, dt), velocity }
    }
}

/// The true state at step `n`, given the draws that perturb the velocity:
/// `noise[k]` acts between step `k` and step `k + 1`.
pub open spec fn truth_at(config: SimulationConfig, noise: Seq<i64>, n: int) -> KinematicModel
    decreases n,
{
    if n <= 0 {
        KinematicModel { position: config.x0 as int, velocity: config.v0 as int }
    } else {
        truth_at(config, noise, n - 1).step(
            noise[n - 1] as int,
            config.process_sigma(),
            config.dt as int,
        )
    }
}

/// Whether every true state up to step `n` can be held.
pub open spec fn truth_representable(config: SimulationConfig, noise: Seq<i64>, n: int) -> bool {
    forall|k: int| 0 <= k <= n ==> (#[trigger] truth_at(config, noise, k)).representable()
}

/// Whether the two sequences hold the true states of the walk driven by
/// `noise`, one sample per step.
pub open spec fn follows_walk(
    config: SimulationConfig,
    noise: Seq<i64>,
    positions: Seq<i64>,
    velocities: Seq<i64>,
) -> bool {
    &&& positions.len() == config.steps() + 1
    &&& velocities.len() == config.steps() + 1
    &&& forall|n: int|
        0 <= n <= config.steps() ==> {
            &&& positions[n] == (#[trigger] truth_at(config, noise, n)).position
            &&& velocities[n] == truth_at(config, noise, n).velocity
        }
}

/// Whether `outcome` is what the walk driven by `noise` comes to: the
/// sequences of true positions and velocities, or the reason why there are
/// none.
pub open spec fn is_simulation(
    config: SimulationConfig,
    noise: Seq<i64>,
    outcome: Result<(Vec<i64>, Vec<i64>), FilterError>,
) -> bool {
    if !config.valid() {
        outcome == Err::<(Vec<i64>, Vec<i64>), FilterError>(FilterError::InvalidConfig)
    } else if !truth_representable(config, noise, config.steps()) {
        outcome == Err::<(Vec<i64>, Vec<i64>), FilterError>(FilterError::Overflow)
    } else {
        outcome.is_ok() && follows_walk(config, noise, outcome.unwrap().0@, outcome.unwrap().1@)
    }
}

/// Whether every draw lies in the unit interval around zero.
pub open spec fn unit_draws(noise: Seq<i64>) -> bool {
    forall|k: int| 0 <= k < noise.len() ==> -SCALE <= #[trigger] noise[k] <= SCALE
}

/// No velocity of a walk with unit draws is larger in size than this: the
/// initial velocity and one full perturbation per step.
pub open spec fn velocity_bound(config: SimulationConfig) -> int {
    magnitude(config.v0 as int) + config.steps() * config.process_sigma()
}

/// No step of such a walk moves the position by more than this.
pub open spec fn stride_bound(config: SimulationConfig) -> int {
    scaled_product(velocity_bound(config), config.dt as int) + 1
}

/// No position of such a walk is larger in size than this.
pub open spec fn position_bound(config: SimulationConfig) -> int {
    magnitude(config.x0 as int) + config.steps() * stride_bound(config)
}

/// Whether the bounds on velocity and position can both be held, so that
/// no walk with unit draws can leave the range.
pub open spec fn walk_stays_in_range(config: SimulationConfig) -> bool {
    velocity_bound(config) <= i64::MAX && position_bound(config) <= i64::MAX
}

/// After `n` steps a walk with unit draws has moved its velocity by at most
/// `n` perturbations and its position by at most `n` strides.
pub proof fn lemma_walk_bounded(config: SimulationConfig, noise: Seq<i64>, n: int)
    requires
        config.valid(),
        noise.len() == config.steps(),
        unit_draws(noise),
        0 <= n <= config.steps(),
    ensures
        magnitude(truth_at(config, noise, n).velocity) <= magnitude(config.v0 as int) + n
            * config.process_sigma(),
        magnitude(truth_at(config, noise, n).velocity) <= velocity_bound(config),
        magnitude(truth_at(config, noise, n).position) <= magnitude(config.x0 as int) + n
            * stride_bound(config),
        magnitude(truth_at(config, noise, n).position) <= position_bound(config),
        config.process_sigma() >= 0,
        stride_bound(config) >= 1,
    decreases n,
{
    let sigma = config.process_sigma();
    let stride = stride_bound(config);
    let steps = config.steps();
    lemma_scaled_sqrt_nonnegative(config.process_variance as int);
    assert(steps * sigma >= 0 && n * sigma <= steps * sigma) by (nonlinear_arith)
        requires
            0 <= n <= steps,
            sigma >= 0,
    ;
    lemma_scaled_product_bounded(0, velocity_bound(config), config.dt as int);
    assert(n * stride <= steps * stride) by (nonlinear_arith)
        requires
            0 <= n <= steps,
            stride >= 1,
    ;
    if n > 0 {
        lemma_walk_bounded(config, noise, n - 1);
        let after = truth_at(config, noise, n);
        lemma_scaled_product_unit(noise[n - 1] as int, sigma);
        assert(n * sigma == (n - 1) * sigma + sigma) by (nonlinear_arith);
        assert(n * stride == (n - 1) * stride + stride) by (nonlinear_arith);
        lemma_scaled_product_bounded(after.velocity, velocity_bound(config), config.dt as int);
    }
}

/// A walk with unit draws whose bounds can be held never leaves the range.
pub proof fn lemma_walk_representable(config: SimulationConfig, noise: Seq<i64>)
    requires
        config.valid(),
        walk_stays_in_range(config),
        noise.len() == config.steps(),
        unit_draws(noise),
    ensures
        truth_representable(config, noise, config.steps()),
{
    assert forall|k: int| 0 <= k <= config.steps() implies (#[trigger] truth_at(
        config,
        noise,
        k,
    )).representable() by {
        lemma_walk_bounded(config, noise, k);
    }
}

/// Takes one step of the walk from `(position, velocity)`.
///
/// Fails with `Overflow` exactly when the new state cannot be held.
pub fn advance_truth(position: i64, velocity: i64, epsilon: i64, sigma: i64, dt: i64) -> (next:
    Result<(i64, i64), FilterError>)
    ensures
        ({
            let model = KinematicModel { position: position as int, velocity: velocity as int }.step(
                epsilon as int,
                sigma as int,
                dt as int,
            );
            if model.representable() {
                next == Ok::<(i64, i64), FilterError>((model.position as i64, model.velocity as i64))
            } else {
                next == Err::<(i64, i64), FilterError>(FilterError::Overflow)
            }
        }),
{
    let v: i128 = velocity as i128 + mul_scaled_wide(epsilon, sigma);
    if v < i64::MIN as i128 || v > i64::MAX as i128 {
        return Err(FilterError::Overflow);
    }
    let new_velocity: i64 = v as i64;
    let x: i128 = position as i128 + mul_scaled_wide(new_velocity, dt);
    if x < i64::MIN as i128 || x > i64::MAX as i128 {
        return Err(FilterError::Overflow);
    }
    Ok((x as i64, new_velocity))
}

/// Runs the walk with the given draws, one per step after step 0.
pub fn simulate_with_noise(config: &SimulationConfig, noise: &Vec<i64>) -> (outcome: Result<
    (Vec<i64>, Vec<i64>),
    FilterError,
>)
    requires
        config.valid() ==> noise@.len() == config.steps(),
    ensures
        is_simulation(*config, noise@, outcome),
{
    if config.validate().is_err() {
        return Err(FilterError::InvalidConfig);
    }
    let sigma: i64 = config.process_noise();
    let mut positions: Vec<i64> = Vec::new();
    let mut velocities: Vec<i64> = Vec::new();
    let mut x: i64 = config.x0;
    let mut v: i64 = config.v0;
    positions.push(x);
    velocities.push(v);
    let mut i: usize = 0;
    while i < noise.len()
        invariant
            config.valid(),
            noise@.len() == config.steps(),
            sigma == config.process_sigma(),
            0 <= i <= noise@.len(),
            positions@.len() == i + 1,
            velocities@.len() == i + 1,
            x == truth_at(*config, noise@, i as int).position,
            v == truth_at(*config, noise@, i as int).velocity,
            forall|n: int|
                0 <= n <= i ==> {
                    &&& positions@[n] == (#[trigger] truth_at(*config, noise@, n)).position
                    &&& velocities@[n] == truth_at(*config, noise@, n).velocity
                },
        decreases noise@.len() - i,
    {
        match advance_truth(x, v, noise[i], sigma, config.dt) {
            Ok((next_x, next_v)) => {
                x = next_x;
                v = next_v;
            },
            Err(_) => {
                assert(!truth_at(*config, noise@, i + 1).representable());
                return Err(FilterError::Overflow);
            },
        }
        positions.push(x);
        velocities.push(v);
        i = i + 1;
    }
    Ok((positions, velocities))
}

/// Runs the walk with draws taken from `rng`, each from the unit interval
/// around zero.
pub fn simulate(config: &SimulationConfig, rng: &mut rand::rngs::StdRng) -> (outcome: Result<
    (Vec<i64>, Vec<i64>),
    FilterError,
>)
    ensures
        exists|noise: Seq<i64>|
            {
                &&& config.valid() ==> noise.len() == config.steps()
                &&& unit_draws(noise)
                &&& #[trigger] is_simulation(*config, noise, outcome)
            },
        outcome.is_ok() ==> outcome.unwrap().0@.len() == config.steps() + 1
            && outcome.unwrap().1@.len() == config.steps() + 1,
        !config.valid() <==> outcome == Err::<(Vec<i64>, Vec<i64>), FilterError>(
            FilterError::InvalidConfig,
        ),
        config.valid() && walk_stays_in_range(*config) ==> outcome.is_ok(),
{
    if config.validate().is_err() {
        assert(is_simulation(*config, Seq::<i64>::empty(), Err(FilterError::InvalidConfig)));
        return Err(FilterError::InvalidConfig);
    }
    let steps: u64 = config.step_count();
    let mut noise: Vec<i64> = Vec::new();
    let mut k: u64 = 0;
    while k < steps
        invariant
            0 <= k <= steps,
            noise@.len() == k,
            unit_draws(noise@),
        decreases steps - k,
    {
        let epsilon: i64 = draw_between(rng, -SCALE, SCALE);
        noise.push(epsilon);
        k = k + 1;
    }
    let outcome = simulate_with_noise(config, &noise);
    proof {
        if walk_stays_in_range(*config) {
            lemma_walk_representable(*config, noise@);
        }
    }
    outcome
}

} // verus!
