//! Gaussian beliefs over a scalar position, and the two transitions of the
//! filter: fusing a measurement into a belief, and carrying a belief forward
//! in time.

use vstd::prelude::*;
use crate::error::FilterError;
use crate::fixed::{fits_i64, floor_div, mul_scaled_wide, scaled_product};

verus! {

/// A belief over unbounded integers: what the arithmetic of the filter means
/// before any machine limit is taken into account.
pub struct BeliefModel {
    pub mean: int,
    pub variance: int,
}

/// `x` lies between `a` and `b`, in whichever order they come, ends included.
pub open spec fn between(x: int, a: int, b: int) -> bool {
    (a <= x <= b) || (b <= x <= a)
}

impl BeliefModel {
    /// A belief never has negative uncertainty.
    pub open spec fn valid(self) -> bool {
        self.variance >= 0
    }

    /// Whether a `GaussianBelief` can hold this belief.
    pub open spec fn representable(self) -> bool {
        fits_i64(self.mean) && 0 <= self.variance <= i64::MAX
    }

    /// The precision-weighted average of this belief and a measurement of
    /// known variance. Each side is weighted by the other's variance, so the
    /// more certain one counts for more. Quotients are rounded down.
    pub open spec fn fuse(self, measurement: int, measurement_variance: int) -> BeliefModel {
        BeliefModel {
            mean: (self.variance * measurement + measurement_variance * self.mean) / (self.variance
                + measurement_variance),
            variance: (self.variance * measurement_variance) / (self.variance
                + measurement_variance),
        }
    }

    /// The belief one time step later under a constant-velocity model:
    /// the mean moves by `velocity * dt`, the variance grows by
    /// `model_variance`.
    pub open spec fn advance(self, velocity: int, dt: int, model_variance: int) -> BeliefModel {
        BeliefModel {
            mean: self.mean + scaled_product(velocity, dt),
            variance: self.variance + model_variance,
        }
    }
}

/// The filter's belief about the position at one step: a best estimate and
/// the uncertainty of that estimate, both in raw fixed-point units.
#[derive(Clone, Copy, Debug, PartialEq, Eq, Structural)]
pub struct GaussianBelief {
    pub mean: i64,
    pub variance: i64,
}

impl View for GaussianBelief {
    type V = BeliefModel;

    open spec fn view(&self) -> BeliefModel {
        BeliefModel { mean: self.mean as int, variance: self.variance as int }
    }
}

impl GaussianBelief {
    /// The variance is never negative.
    pub open spec fn valid(&self) -> bool {
        self.variance >= 0
    }

    /// The belief held before anything was observed: the guess, taken as
    /// exact.
    pub fn initial(x_prior: i64) -> (b: GaussianBelief)
        ensures
            b.mean == x_prior,
            b.variance == 0,
            b.valid(),
    {
        GaussianBelief { mean: x_prior, variance: 0 }
    }
}

/// Prediction never reduces uncertainty, and adds to it whenever the model
/// has any of its own.
pub proof fn lemma_advance_variance_monotone(
    b: BeliefModel,
    velocity: int,
    dt: int,
    model_variance: int,
)
    requires
        b.valid(),
        model_variance >= 0,
    ensures
        b.advance(velocity, dt, model_variance).variance >= b.variance,
        model_variance > 0 ==> b.advance(velocity, dt, model_variance).variance > b.variance,
        b.advance(velocity, dt, model_variance).valid(),
{
}

/// Fusing never increases uncertainty beyond that of either side, and never
/// makes it negative.
pub proof fn lemma_fuse_variance_bounded(b: BeliefModel, measurement: int, measurement_variance: int)
    requires
        b.valid(),
        measurement_variance >= 0,
        b.variance + measurement_variance > 0,
    ensures
        0 <= b.fuse(measurement, measurement_variance).variance <= b.variance,
        b.fuse(measurement, measurement_variance).variance <= measurement_variance,
{
    let p = b.variance;
    let r = measurement_variance;
    let d = p + r;
    let n = p * r;
    let q = n / d;
    let m = n % d;
    assert(n == d * q + m && 0 <= m < d) by {
        vstd::arithmetic::div_mod::lemma_fundamental_div_mod(n, d);
        vstd::arithmetic::div_mod::lemma_mod_bound(n, d);
    }
    assert(0 <= q && q <= p && q <= r) by (nonlinear_arith)
        requires
            n == p * r,
            d == p + r,
            n == d * q + m,
            0 <= m < d,
            p >= 0,
            r >= 0,
            d > 0,
    ;
}

/// When neither side is exact, fusing leaves strictly less uncertainty than
/// either side had.
pub proof fn lemma_fuse_contracts_variance(
    b: BeliefModel,
    measurement: int,
    measurement_variance: int,
)
    requires
        b.variance > 0,
        measurement_variance > 0,
    ensures
        b.fuse(measurement, measurement_variance).variance < b.variance,
        b.fuse(measurement, measurement_variance).variance < measurement_variance,
{
    let p = b.variance;
    let r = measurement_variance;
    let d = p + r;
    let n = p * r;
    let q = n / d;
    let m = n % d;
    assert(n == d * q + m && 0 <= m < d) by {
        vstd::arithmetic::div_mod::lemma_fundamental_div_mod(n, d);
        vstd::arithmetic::div_mod::lemma_mod_bound(n, d);
    }
    assert(q < p && q < r) by (nonlinear_arith)
        requires
            n == p * r,
            d == p + r,
            n == d * q + m,
            0 <= m < d,
            p > 0,
            r > 0,
    ;
}

/// The fused mean lies between the prior mean and the measurement.
pub proof fn lemma_fuse_mean_between(b: BeliefModel, measurement: int, measurement_variance: int)
    requires
        b.valid(),
        measurement_variance >= 0,
        b.variance + measurement_variance > 0,
    ensures
        between(b.fuse(measurement, measurement_variance).mean, b.mean, measurement),
{
    let p = b.variance;
    let r = measurement_variance;
    let d = p + r;
    let n = p * measurement + r * b.mean;
    let q = n / d;
    let m = n % d;
    let lo = if b.mean <= measurement { b.mean } else { measurement };
    let hi = if b.mean <= measurement { measurement } else { b.mean };
    assert(n == d * q + m && 0 <= m < d) by {
        vstd::arithmetic::div_mod::lemma_fundamental_div_mod(n, d);
        vstd::arithmetic::div_mod::lemma_mod_bound(n, d);
    }
    assert(lo * d <= n <= hi * d) by (nonlinear_arith)
        requires
            n == p * measurement + r * b.mean,
            d == p + r,
            p >= 0,
            r >= 0,
            lo <= measurement <= hi,
            lo <= b.mean <= hi,
    ;
    assert(lo <= q <= hi) by (nonlinear_arith)
        requires
            lo * d <= n <= hi * d,
            n == d * q + m,
            0 <= m < d,
    ;
}

/// An exact prior is kept as it is: a measurement of positive variance has
/// no weight against it.
pub proof fn lemma_fuse_exact_prior(b: BeliefModel, measurement: int, measurement_variance: int)
    requires
        b.variance == 0,
        measurement_variance > 0,
    ensures
        b.fuse(measurement, measurement_variance) == b,
{
    let r = measurement_variance;
    vstd::arithmetic::div_mod::lemma_div_multiples_vanish(b.mean, r);
    vstd::arithmetic::div_mod::lemma_div_multiples_vanish(0, r);
}

/// An exact measurement replaces an inexact prior.
pub proof fn lemma_fuse_exact_measurement(b: BeliefModel, measurement: int)
    requires
        b.variance > 0,
    ensures
        b.fuse(measurement, 0).mean == measurement,
        b.fuse(measurement, 0).variance == 0,
{
    let p = b.variance;
    vstd::arithmetic::div_mod::lemma_div_multiples_vanish(measurement, p);
    vstd::arithmetic::div_mod::lemma_div_multiples_vanish(0, p);
}

/// Fusing into an exact prior a measurement that agrees with it gives the
/// measurement. (A measurement that disagrees gives the prior: see
/// `lemma_fuse_exact_prior`.)
pub proof fn lemma_fuse_exact_prior_agreeing(
    b: BeliefModel,
    measurement: int,
    measurement_variance: int,
)
    requires
        b.variance == 0,
        measurement_variance > 0,
        measurement == b.mean,
    ensures
        b.fuse(measurement, measurement_variance).mean == measurement,
{
    lemma_fuse_exact_prior(b, measurement, measurement_variance);
}

/// Fuses a measurement of known variance into a prior belief.
///
/// The caller sees to it that the two variances do not sum to zero: at least
/// one side must be uncertain for a weighted average to exist.
pub fn update(prior: &GaussianBelief, measurement: i64, measurement_variance: i64) -> (posterior:
    GaussianBelief)
    requires
        prior.valid(),
        measurement_variance >= 0,
        prior.variance + measurement_variance > 0,
    ensures
        posterior@ == prior@.fuse(measurement as int, measurement_variance as int),
        posterior.valid(),
        between(posterior.mean as int, prior.mean as int, measurement as int),
        posterior.variance <= prior.variance,
        posterior.variance <= measurement_variance,
        prior.variance > 0 && measurement_variance > 0 ==> posterior.variance < prior.variance
            && posterior.variance < measurement_variance,
        prior.variance == 0 ==> posterior == *prior,
        measurement_variance == 0 ==> posterior.mean == measurement && posterior.variance == 0,
{
    let p: i128 = prior.variance as i128;
    let r: i128 = measurement_variance as i128;
    let z: i128 = measurement as i128;
    let x: i128 = prior.mean as i128;
    proof {
        lemma_fuse_mean_between(prior@, measurement as int, measurement_variance as int);
        lemma_fuse_variance_bounded(prior@, measurement as int, measurement_variance as int);
        if prior.variance > 0 && measurement_variance > 0 {
            lemma_fuse_contracts_variance(prior@, measurement as int, measurement_variance as int);
        }
        if prior.variance == 0 {
            lemma_fuse_exact_prior(prior@, measurement as int, measurement_variance as int);
        }
        if measurement_variance == 0 {
            lemma_fuse_exact_measurement(prior@, measurement as int);
        }
        assert(-0x4000_0000_0000_0000_0000_0000_0000_0000 < p * z
            < 0x4000_0000_0000_0000_0000_0000_0000_0000) by (nonlinear_arith)
            requires
                0 <= p < 0x8000_0000_0000_0000,
                -0x8000_0000_0000_0000 <= z < 0x8000_0000_0000_0000,
        ;
        assert(-0x4000_0000_0000_0000_0000_0000_0000_0000 < r * x
            < 0x4000_0000_0000_0000_0000_0000_0000_0000) by (nonlinear_arith)
            requires
                0 <= r < 0x8000_0000_0000_0000,
                -0x8000_0000_0000_0000 <= x < 0x8000_0000_0000_0000,
        ;
        assert(0 <= p * r < 0x4000_0000_0000_0000_0000_0000_0000_0000) by (nonlinear_arith)
            requires
                0 <= p < 0x8000_0000_0000_0000,
                0 <= r < 0x8000_0000_0000_0000,
        ;
    }
    let weight: i128 = p + r;
    let mean: i128 = floor_div(p * z + r * x, weight);
    let variance: i128 = floor_div(p * r, weight);
    GaussianBelief { mean: mean as i64, variance: variance as i64 }
}

/// Carries a belief one time step forward under a constant-velocity model.
///
/// Fails with `Overflow` exactly when the predicted belief cannot be held.
pub fn predict(prior: &GaussianBelief, velocity: i64, dt: i64, model_variance: i64) -> (predicted:
    Result<GaussianBelief, FilterError>)
    requires
        prior.valid(),
        model_variance >= 0,
    ensures
        prior@.advance(velocity as int, dt as int, model_variance as int).representable()
            ==> predicted.is_ok() && predicted.unwrap()@ == prior@.advance(
            velocity as int,
            dt as int,
            model_variance as int,
        ),
        !prior@.advance(velocity as int, dt as int, model_variance as int).representable()
            ==> predicted == Err::<GaussianBelief, FilterError>(FilterError::Overflow),
        predicted.is_ok() ==> predicted.unwrap().valid() && predicted.unwrap().variance
            >= prior.variance,
{
    let mean: i128 = prior.mean as i128 + mul_scaled_wide(velocity, dt);
    let variance: i128 = prior.variance as i128 + model_variance as i128;
    if mean < i64::MIN as i128 || mean > i64::MAX as i128 || variance > i64::MAX as i128 {
        Err(FilterError::Overflow)
    } else {
        Ok(GaussianBelief { mean: mean as i64, variance: variance as i64 })
    }
}

} // verus!
