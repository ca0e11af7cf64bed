//! The fixed parameters of one run.

use vstd::prelude::*;
use crate::error::FilterError;
use crate::fixed::{scaled_sqrt, sqrt_scaled};

verus! {

/// Everything that one run depends on besides the random draws. All fields
/// are raw fixed-point values and stay as they are for the whole run.
#[derive(Clone, Copy, Debug, PartialEq, Eq, Structural)]
pub struct SimulationConfig {
    /// Length of one time step.
    pub dt: i64,
    /// Total simulated time.
    pub duration: i64,
    /// True position at step 0.
    pub x0: i64,
    /// True velocity at step 0.
    pub v0: i64,
    /// Variance of the perturbation that the true velocity suffers each step.
    pub process_variance: i64,
    /// Variance of the error of each observation.
    pub measurement_variance: i64,
    /// The constant velocity that the filter assumes.
    pub v_model: i64,
    /// The variance that the filter adds to its belief at each prediction.
    pub model_variance: i64,
    /// The filter's guess of the position before the first observation.
    pub x_prior: i64,
}

impl SimulationConfig {
    /// Time advances, and no variance is negative.
    pub open spec fn valid(&self) -> bool {
        &&& self.dt > 0
        &&& self.duration > 0
        &&& self.process_variance >= 0
        &&& self.measurement_variance >= 0
        &&& self.model_variance >= 0
    }

    /// The number of steps after step 0: as many whole time steps as fit
    /// into the duration. A run has one sample more than this.
    pub open spec fn steps(&self) -> int {
        self.duration as int / self.dt as int
    }

    /// The largest size of one step's perturbation of the true velocity.
    pub open spec fn process_sigma(&self) -> int {
        scaled_sqrt(self.process_variance as int)
    }

    /// The largest size of the error of one observation.
    pub open spec fn measurement_sigma(&self) -> int {
        scaled_sqrt(self.measurement_variance as int)
    }

    /// Accepts exactly the valid configurations.
    pub fn validate(&self) -> (r: Result<(), FilterError>)
        ensures
            self.valid() ==> r == Ok::<(), FilterError>(()),
            !self.valid() ==> r == Err::<(), FilterError>(FilterError::InvalidConfig),
    {
        if self.dt > 0 && self.duration > 0 && self.process_variance >= 0
            && self.measurement_variance >= 0 && self.model_variance >= 0 {
            Ok(())
        } else {
            Err(FilterError::InvalidConfig)
        }
    }

    /// The number of steps after step 0.
    pub fn step_count(&self) -> (n: u64)
        requires
            self.valid(),
        ensures
            n == self.steps(),
    {
        (self.duration / self.dt) as u64
    }

    /// The number of samples in every sequence of a run.
    pub fn sample_count(&self) -> (n: u64)
        requires
            self.valid(),
        ensures
            n == self.steps() + 1,
    {
        proof {
            crate::fixed::lemma_floor_div_bounds(self.duration as int, self.dt as int);
        }
        self.step_count() + 1
    }

    /// The square root of the process variance.
    pub fn process_noise(&self) -> (s: i64)
        requires
            self.valid(),
        ensures
            s == self.process_sigma(),
            s >= 0,
    {
        sqrt_scaled(self.process_variance)
    }

    /// The square root of the measurement variance.
    pub fn measurement_noise(&self) -> (s: i64)
        requires
            self.valid(),
        ensures
            s == self.measurement_sigma(),
            s >= 0,
    {
        sqrt_scaled(self.measurement_variance)
    }
}

} // verus!
