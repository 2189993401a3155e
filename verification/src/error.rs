use vstd::prelude::*;

verus! {

/// What is wrong with a configuration or with the way a fit was driven.
#[derive(Clone, Copy, Debug, PartialEq, Eq, Structural)]
pub enum ConfigFault {
    /// The weight distribution was named neither `uniform` nor `normal`.
    UnknownWeightsDistribution,
    /// The number of estimators is zero or negative.
    NonPositiveEstimators,
    /// The learning rate is not greater than zero.
    NonPositiveLearningRate,
    /// The number of hidden features is negative.
    NegativeHiddenFeatures,
    /// The tolerance is not greater than zero.
    NonPositiveTolerance,
    /// The dropout rate is not at least zero and less than one.
    DropoutOutOfRange,
    /// The seeds of the rounds, `seed`, `seed + 1`, ..., leave the 64-bit range.
    SeedRange,
    /// A round was reported in the form of another strategy than the fit's.
    ForeignReport,
    /// The regression model was named neither `LinearRegression` nor `ElasticNet`.
    UnknownModel,
}

/// Why a fit or a prediction was refused or given up.
#[derive(Clone, Copy, Debug, PartialEq, Eq, Structural)]
pub enum EnsembleError {
    /// The configuration cannot be used.
    Configuration(ConfigFault),
    /// A row, column or feature count is not the one that was due.
    ShapeMismatch { expected: usize, found: usize },
    /// No two samples of the target differ, so losses cannot be scaled by its range.
    DegenerateTarget,
    /// The base estimator could not be fitted in the given round.
    CollaboratorFit { round: usize },
    /// The base estimator could not predict in the given round.
    CollaboratorPredict { round: usize },
}

} // verus!
