use vstd::prelude::*;

verus! {

/// The scalar loss that a learner is configured to report.
#[derive(Clone, Copy, Debug, PartialEq, Eq, Structural)]
pub enum CostFns {
    /// Mean of absolute differences.
    MeanAbsolute,
    /// Mean of squared differences.
    MeanSquared,
    /// Square root of the mean of squared differences.
    RootMeanSquared,
}

} // verus!
