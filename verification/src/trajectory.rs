//! Sequences of samples in time order: index `i` is time step `i`.

use vstd::prelude::*;

verus! {

/// One value of a trajectory together with the step it belongs to.
#[derive(Clone, Copy, Debug, PartialEq, Eq, Structural)]
pub struct TrajectorySample {
    pub step: usize,
    pub value: i64,
}

/// The four sequences of one run, all of one length and aligned by step.
#[derive(Debug, PartialEq, Eq)]
pub struct Trajectories {
    /// The true positions.
    pub positions: Vec<i64>,
    /// The true velocities.
    pub velocities: Vec<i64>,
    /// The noisy observations of the true positions.
    pub observations: Vec<i64>,
    /// The filtered estimates of the position.
    pub estimates: Vec<i64>,
}

impl Trajectories {
    /// Whether every sequence has `n` samples.
    pub open spec fn all_of_len(&self, n: int) -> bool {
        &&& self.positions@.len() == n
        &&& self.velocities@.len() == n
        &&& self.observations@.len() == n
        &&& self.estimates@.len() == n
    }
}

/// Pairs each value with its step, in order.
pub fn to_samples(values: &Vec<i64>) -> (samples: Vec<TrajectorySample>)
    ensures
        samples@.len() == values@.len(),
        forall|i: int|
            0 <= i < values@.len() ==> (#[trigger] samples@[i]).step == i && samples@[i].value
                == values@[i],
{
    let mut samples: Vec<TrajectorySample> = Vec::new();
    let mut i: usize = 0;
    while i < values.len()
        invariant
            0 <= i <= values@.len(),
            samples@.len() == i,
            forall|j: int|
                0 <= j < i ==> (#[trigger] samples@[j]).step == j && samples@[j].value
                    == values@[j],
        decreases values@.len() - i,
    {
        samples.push(TrajectorySample { step: i, value: values[i] });
        i = i + 1;
    }
    samples
}

} // verus!
