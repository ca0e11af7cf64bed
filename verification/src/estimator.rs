//! The recursive estimator: it sees the observations only, and alternates
//! prediction and fusion.

use vstd::prelude::*;
use crate::belief::{predict, update, BeliefModel, GaussianBelief};
use crate::belief::{lemma_fuse_mean_between, lemma_fuse_variance_bounded};
use crate::config::SimulationConfig;
use crate::error::FilterError;
use crate::fixed::{magnitude, scaled_product};

verus! {

/// Where the estimator stands in its run.
#[derive(Clone, Copy, Debug, PartialEq, Eq, Structural)]
pub enum Phase {
    /// Nothing has been observed: the belief is the initial guess.
    AwaitingFirstObservation,
    /// At least one observation has been fused in.
    Tracking,
}

/// What a prior comes to when an observation is fused into it: the fused
/// belief, or the reason why there is none.
pub open spec fn absorb(prior: BeliefModel, observation: int, measurement_variance: int) -> Result<
    BeliefModel,
    FilterError,
> {
    if !prior.representable() {
        Err(FilterError::Overflow)
    } else if prior.variance + measurement_variance <= 0 {
        Err(FilterError::DegenerateFusion)
    } else {
        Ok(prior.fuse(observation, measurement_variance))
    }
}

/// The belief before anything was observed.
pub open spec fn initial_belief(config: SimulationConfig) -> BeliefModel {
    BeliefModel { mean: config.x_prior as int, variance: 0 }
}

/// The belief after the observations `0 ..= n` have been fused in, or the
/// first failure on the way there. The first observation meets the initial
/// belief as it is; every later one meets the prediction from the belief
/// before it.
pub open spec fn belief_after(config: SimulationConfig, observations: Seq<i64>, n: int) -> Result<
    BeliefModel,
    FilterError,
>
    decreases n,
{
    if n <= 0 {
        absorb(initial_belief(config), observations[0] as int, config.measurement_variance as int)
    } else {
        match belief_after(config, observations, n - 1) {
            Err(e) => Err(e),
            Ok(b) => absorb(
                b.advance(config.v_model as int, config.dt as int, config.model_variance as int),
                observations[n] as int,
                config.measurement_variance as int,
            ),
        }
    }
}

/// The filtered means for a sequence of observations, one per observation,
/// or the reason why there are none.
pub open spec fn filtered_means(config: SimulationConfig, observations: Seq<i64>) -> Result<
    Seq<int>,
    FilterError,
> {
    if !config.valid() {
        Err(FilterError::InvalidConfig)
    } else if observations.len() == 0 {
        Ok(Seq::empty())
    } else {
        match belief_after(config, observations, observations.len() - 1) {
            Err(e) => Err(e),
            Ok(_) => Ok(
                Seq::new(
                    observations.len(),
                    |i: int| belief_after(config, observations, i).unwrap().mean,
                ),
            ),
        }
    }
}

/// Whether `outcome` holds exactly the means `expected`, or exactly its
/// error.
pub open spec fn matches_means(
    outcome: Result<Vec<i64>, FilterError>,
    expected: Result<Seq<int>, FilterError>,
) -> bool {
    match expected {
        Err(e) => outcome == Err::<Vec<i64>, FilterError>(e),
        Ok(means) => {
            &&& outcome.is_ok()
            &&& outcome.unwrap()@.len() == means.len()
            &&& forall|i: int| 0 <= i < means.len() ==> #[trigger] outcome.unwrap()@[i] == means[i]
        },
    }
}

/// A failure on the way stays the outcome of every longer run.
pub proof fn lemma_failure_persists(
    config: SimulationConfig,
    observations: Seq<i64>,
    i: int,
    n: int,
)
    requires
        0 <= i <= n,
        belief_after(config, observations, i).is_err(),
    ensures
        belief_after(config, observations, n) == belief_after(config, observations, i),
    decreases n - i,
{
    if i < n {
        lemma_failure_persists(config, observations, i, n - 1);
    }
}

/// A belief that was reached is valid and can be held.
pub proof fn lemma_belief_after_representable(
    config: SimulationConfig,
    observations: Seq<i64>,
    n: int,
)
    requires
        config.valid(),
        0 <= n,
        belief_after(config, observations, n).is_ok(),
    ensures
        belief_after(config, observations, n).unwrap().representable(),
    decreases n,
{
    let r = config.measurement_variance as int;
    if n == 0 {
        let p = initial_belief(config);
        lemma_fuse_mean_between(p, observations[0] as int, r);
        lemma_fuse_variance_bounded(p, observations[0] as int, r);
    } else {
        let b = belief_after(config, observations, n - 1).unwrap();
        let p = b.advance(config.v_model as int, config.dt as int, config.model_variance as int);
        lemma_fuse_mean_between(p, observations[n] as int, r);
        lemma_fuse_variance_bounded(p, observations[n] as int, r);
    }
}

/// Filtering fails for want of any uncertainty exactly when the
/// measurements are taken as exact: the initial belief is exact too, so the
/// very first fusion has nothing to weigh. No other step can fail in this
/// way, and no step fails for the configuration's sake.
pub proof fn lemma_failure_kinds(config: SimulationConfig, observations: Seq<i64>, n: int)
    requires
        config.valid(),
        0 <= n,
    ensures
        belief_after(config, observations, n) == Err::<BeliefModel, FilterError>(
            FilterError::DegenerateFusion,
        ) <==> config.measurement_variance == 0,
        belief_after(config, observations, n) != Err::<BeliefModel, FilterError>(
            FilterError::InvalidConfig,
        ),
    decreases n,
{
    if n > 0 {
        lemma_failure_kinds(config, observations, n - 1);
        if belief_after(config, observations, n - 1).is_ok() {
            lemma_belief_after_representable(config, observations, n - 1);
        }
    }
}

/// Whether every observation is at most `bound` in size.
pub open spec fn observations_within(observations: Seq<i64>, bound: int) -> bool {
    forall|i: int| 0 <= i < observations.len() ==> -bound <= #[trigger] observations[i] <= bound
}

/// The size of the move that each prediction makes.
pub open spec fn model_stride(config: SimulationConfig) -> int {
    magnitude(scaled_product(config.v_model as int, config.dt as int))
}

/// No mean is larger in size than this after `n` predictions, when every
/// observation is at most `bound` in size: each fusion stays between what
/// it is given, and each prediction adds one move.
pub open spec fn estimate_bound(config: SimulationConfig, bound: int, n: int) -> int {
    (if magnitude(config.x_prior as int) >= bound {
        magnitude(config.x_prior as int)
    } else {
        bound
    }) + n * model_stride(config)
}

/// With inexact measurements, bounded observations and room for the means
/// to move in, the filter does not fail, and its beliefs stay within their
/// bounds.
pub proof fn lemma_filter_bounded(
    config: SimulationConfig,
    observations: Seq<i64>,
    bound: int,
    n: int,
)
    requires
        config.valid(),
        config.measurement_variance > 0,
        config.measurement_variance + config.model_variance <= i64::MAX,
        observations_within(observations, bound),
        0 <= n < observations.len(),
        estimate_bound(config, bound, n) <= i64::MAX,
    ensures
        belief_after(config, observations, n).is_ok(),
        magnitude(belief_after(config, observations, n).unwrap().mean) <= estimate_bound(
            config,
            bound,
            n,
        ),
        0 <= belief_after(config, observations, n).unwrap().variance
            <= config.measurement_variance,
    decreases n,
{
    let r = config.measurement_variance as int;
    let stride = model_stride(config);
    if n == 0 {
        let p = initial_belief(config);
        lemma_fuse_mean_between(p, observations[0] as int, r);
        lemma_fuse_variance_bounded(p, observations[0] as int, r);
    } else {
        assert(n * stride == (n - 1) * stride + stride) by (nonlinear_arith);
        lemma_filter_bounded(config, observations, bound, n - 1);
        let b = belief_after(config, observations, n - 1).unwrap();
        let p = b.advance(config.v_model as int, config.dt as int, config.model_variance as int);
        lemma_fuse_mean_between(p, observations[n] as int, r);
        lemma_fuse_variance_bounded(p, observations[n] as int, r);
    }
}

/// The estimator's state: the current belief, the phase, and the
/// parameters of the model it assumes.
#[derive(Clone, Copy, Debug, PartialEq, Eq, Structural)]
pub struct KalmanEstimator {
    pub phase: Phase,
    pub belief: GaussianBelief,
    pub v_model: i64,
    pub dt: i64,
    pub model_variance: i64,
    pub measurement_variance: i64,
}

impl KalmanEstimator {
    /// No variance is negative, and before the first observation the belief
    /// is still exact.
    pub open spec fn wf(&self) -> bool {
        &&& self.belief.valid()
        &&& self.model_variance >= 0
        &&& self.measurement_variance >= 0
        &&& self.phase == Phase::AwaitingFirstObservation ==> self.belief.variance == 0
    }

    /// The belief that the next observation will meet: the current one
    /// before the first observation, the prediction from it afterwards.
    pub open spec fn prior(&self) -> BeliefModel {
        match self.phase {
            Phase::AwaitingFirstObservation => self.belief@,
            Phase::Tracking => self.belief@.advance(
                self.v_model as int,
                self.dt as int,
                self.model_variance as int,
            ),
        }
    }

    /// What the next observation will bring about.
    pub open spec fn outcome(&self, observation: i64) -> Result<BeliefModel, FilterError> {
        absorb(self.prior(), observation as int, self.measurement_variance as int)
    }

    /// Whether this estimator runs with the parameters of `config`.
    pub open spec fn configured_by(&self, config: SimulationConfig) -> bool {
        &&& self.v_model == config.v_model
        &&& self.dt == config.dt
        &&& self.model_variance == config.model_variance
        &&& self.measurement_variance == config.measurement_variance
    }

    /// An estimator that has observed nothing. Refuses exactly the invalid
    /// configurations.
    pub fn new(config: &SimulationConfig) -> (created: Result<KalmanEstimator, FilterError>)
        ensures
            !config.valid() ==> created == Err::<KalmanEstimator, FilterError>(
                FilterError::InvalidConfig,
            ),
            config.valid() ==> {
                &&& created.is_ok()
                &&& created.unwrap().wf()
                &&& created.unwrap().configured_by(*config)
                &&& created.unwrap().phase == Phase::AwaitingFirstObservation
                &&& created.unwrap().belief@ == initial_belief(*config)
            },
    {
        if config.validate().is_err() {
            return Err(FilterError::InvalidConfig);
        }
        Ok(
            KalmanEstimator {
                phase: Phase::AwaitingFirstObservation,
                belief: GaussianBelief::initial(config.x_prior),
                v_model: config.v_model,
                dt: config.dt,
                model_variance: config.model_variance,
                measurement_variance: config.measurement_variance,
            },
        )
    }

    /// Takes in one observation and returns the new estimate of the
    /// position. The first observation is fused into the initial belief and
    /// starts the tracking; every later one is fused into the prediction
    /// from the current belief. On failure nothing changes.
    pub fn step(&mut self, observation: i64) -> (estimate: Result<i64, FilterError>)
        requires
            old(self).wf(),
        ensures
            final(self).wf(),
            final(self).v_model == old(self).v_model,
            final(self).dt == old(self).dt,
            final(self).model_variance == old(self).model_variance,
            final(self).measurement_variance == old(self).measurement_variance,
            old(self).phase == Phase::Tracking ==> final(self).phase == Phase::Tracking,
            match old(self).outcome(observation) {
                Ok(posterior) => {
                    &&& estimate == Ok::<i64, FilterError>(final(self).belief.mean)
                    &&& final(self).belief@ == posterior
                    &&& final(self).phase == Phase::Tracking
                },
                Err(e) => {
                    &&& estimate == Err::<i64, FilterError>(e)
                    &&& *final(self) == *old(self)
                },
            },
    {
        let prior: GaussianBelief = match self.phase {
            Phase::AwaitingFirstObservation => self.belief,
            Phase::Tracking => match predict(
                &self.belief,
                self.v_model,
                self.dt,
                self.model_variance,
            ) {
                Ok(p) => p,
                Err(e) => {
                    return Err(e);
                },
            },
        };
        if prior.variance == 0 && self.measurement_variance == 0 {
            return Err(FilterError::DegenerateFusion);
        }
        let posterior: GaussianBelief = update(&prior, observation, self.measurement_variance);
        self.belief = posterior;
        self.phase = Phase::Tracking;
        Ok(posterior.mean)
    }
}

/// Filters a sequence of observations: the estimate of the position after
/// each one, in order.
pub fn estimate(observations: &Vec<i64>, config: &SimulationConfig) -> (outcome: Result<
    Vec<i64>,
    FilterError,
>)
    ensures
        matches_means(outcome, filtered_means(*config, observations@)),
        outcome.is_ok() ==> outcome.unwrap()@.len() == observations@.len(),
        outcome == Err::<Vec<i64>, FilterError>(FilterError::InvalidConfig) <==> !config.valid(),
        outcome == Err::<Vec<i64>, FilterError>(FilterError::DegenerateFusion) <==> config.valid()
            && observations@.len() > 0 && config.measurement_variance == 0,
{
    proof {
        if config.valid() && observations@.len() > 0 {
            lemma_failure_kinds(*config, observations@, observations@.len() - 1);
        }
    }
    let mut estimator: KalmanEstimator = match KalmanEstimator::new(config) {
        Ok(e) => e,
        Err(e) => {
            return Err(e);
        },
    };
    let mut estimates: Vec<i64> = Vec::new();
    let mut i: usize = 0;
    while i < observations.len()
        invariant
            config.valid(),
            0 <= i <= observations@.len(),
            estimates@.len() == i,
            estimator.wf(),
            estimator.configured_by(*config),
            i == 0 ==> estimator.phase == Phase::AwaitingFirstObservation && estimator.belief@
                == initial_belief(*config),
            i > 0 ==> estimator.phase == Phase::Tracking && belief_after(
                *config,
                observations@,
                i - 1,
            ) == Ok::<BeliefModel, FilterError>(estimator.belief@),
            forall|j: int|
                0 <= j < i ==> (#[trigger] belief_after(*config, observations@, j)).is_ok()
                    && estimates@[j] == belief_after(*config, observations@, j).unwrap().mean,
        decreases observations@.len() - i,
    {
        assert(estimator.outcome(observations@[i as int]) == belief_after(
            *config,
            observations@,
            i as int,
        ));
        match estimator.step(observations[i]) {
            Ok(mean) => {
                estimates.push(mean);
            },
            Err(e) => {
                proof {
                    lemma_failure_persists(
                        *config,
                        observations@,
                        i as int,
                        observations@.len() - 1,
                    );
                }
                return Err(e);
            },
        }
        i = i + 1;
    }
    Ok(estimates)
}

} // verus!
