//! The ways in which a run can fail.

use vstd::prelude::*;

verus! {

/// Why the library declined to produce a result.
#[derive(Clone, Copy, Debug, PartialEq, Eq, Structural)]
pub enum FilterError {
    /// A time step or duration is not positive, or a variance is negative.
    InvalidConfig,
    /// A fusion was asked for in which prior and measurement are both exact,
    /// so that their variances sum to zero.
    DegenerateFusion,
    /// A value left the range that the fixed-point representation can hold.
    Overflow,
}

} // verus!
