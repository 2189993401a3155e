use vstd::prelude::*;
use crate::binary64::{Binary64, ONE_BITS};
use crate::error::{ConfigFault, EnsembleError};

verus! {

/// The tolerance `1e-4` that stands in where none is given.
pub const DEFAULT_TOLERANCE_BITS: u64 = 0x3F1A_36E2_EB1C_432D;

/// The seed that stands in where none is given.
pub const DEFAULT_SEED: u64 = 42;

/// The law from which the entries of a projection matrix are drawn.
#[derive(Clone, Copy, Debug, PartialEq, Eq, Structural)]
pub enum WeightsDistribution {
    /// Uniform on the unit interval, one excluded.
    Uniform,
    /// Standard normal.
    Normal,
}

/// How the rounds of an ensemble are fitted and combined.
#[derive(Clone, Copy, Debug, PartialEq, Eq, Structural)]
pub enum Strategy {
    /// Each round fits the residual that the rounds before it left.
    Boosting,
    /// Each round fits the target itself; predictions are combined by their median.
    Bagging,
    /// Each round fits the target under sample weights that grow with the loss.
    Weighted,
}

/// The closed-form regressions that can serve as base estimators.
#[derive(Clone, Copy, Debug, PartialEq, Eq, Structural)]
pub enum RegressionKind {
    LinearRegression,
    ElasticNet,
}

/// Whether two strings hold the same text.
fn same_text(left: &str, right: &str) -> (same: bool)
    ensures
        same == (left@ == right@),
{
    let left_owned: String = left.to_owned();
    let right_owned: String = right.to_owned();
    left_owned == right_owned
}

/// The distribution that a name stands for; no name stands for `Uniform`.
pub open spec fn distribution_named(name: Option<Seq<char>>) -> Option<WeightsDistribution> {
    match name {
        None => Some(WeightsDistribution::Uniform),
        Some(text) => if text == "uniform"@ {
            Some(WeightsDistribution::Uniform)
        } else if text == "normal"@ {
            Some(WeightsDistribution::Normal)
        } else {
            None
        },
    }
}

/// The view of an optional string.
pub open spec fn text_of(name: Option<&str>) -> Option<Seq<char>> {
    match name {
        None => None,
        Some(text) => Some(text@),
    }
}

/// Reads the name of a weight distribution: `uniform`, `normal`, or none
/// for the default. Any other name is a configuration error.
pub fn parse_weights_distribution(name: Option<&str>) -> (parsed: Result<
    WeightsDistribution,
    EnsembleError,
>)
    ensures
        parsed == match distribution_named(text_of(name)) {
            Some(distribution) => Ok::<WeightsDistribution, EnsembleError>(distribution),
            None => Err(EnsembleError::Configuration(ConfigFault::UnknownWeightsDistribution)),
        },
{
    match name {
        None => Ok(WeightsDistribution::Uniform),
        Some(text) => {
            if same_text(text, "uniform") {
                Ok(WeightsDistribution::Uniform)
            } else if same_text(text, "normal") {
                Ok(WeightsDistribution::Normal)
            } else {
                Err(EnsembleError::Configuration(ConfigFault::UnknownWeightsDistribution))
            }
        },
    }
}

/// The model that a name stands for.
pub open spec fn model_named(name: Seq<char>) -> Option<RegressionKind> {
    if name == "LinearRegression"@ {
        Some(RegressionKind::LinearRegression)
    } else if name == "ElasticNet"@ {
        Some(RegressionKind::ElasticNet)
    } else {
        None
    }
}

/// Reads the name of a closed-form regression model.
pub fn parse_regression_kind(name: &str) -> (parsed: Result<RegressionKind, EnsembleError>)
    ensures
        parsed == match model_named(name@) {
            Some(kind) => Ok::<RegressionKind, EnsembleError>(kind),
            None => Err(EnsembleError::Configuration(ConfigFault::UnknownModel)),
        },
{
    if same_text(name, "LinearRegression") {
        Ok(RegressionKind::LinearRegression)
    } else if same_text(name, "ElasticNet") {
        Ok(RegressionKind::ElasticNet)
    } else {
        Err(EnsembleError::Configuration(ConfigFault::UnknownModel))
    }
}

/// What an ensemble is built with. A plain record: every fit checks it again
/// with [`EnsembleConfig::check`] before the first round.
#[derive(Clone, Copy, Debug, PartialEq, Eq, Structural)]
pub struct EnsembleConfig {
    /// How many rounds to fit at most.
    pub n_estimators: usize,
    /// The shrinkage applied to each round's contribution.
    pub learning_rate: Binary64,
    /// The width of the random projection.
    pub n_hidden_features: usize,
    /// Whether the inputs are joined to the hidden representation.
    pub direct_link: bool,
    /// The law of the projection weights.
    pub weights_distribution: WeightsDistribution,
    /// The fraction of hidden units that are zeroed while fitting.
    pub dropout: Binary64,
    /// The threshold of early stopping.
    pub tolerance: Binary64,
    /// The base seed; round `i` draws from the stream seeded with `seed + i`.
    pub seed: u64,
}

/// Whether a number is greater than zero.
pub open spec fn positive(number: Binary64) -> bool {
    Binary64::zero_spec().less(number)
}

/// Whether a number is a dropout rate: at least zero and less than one.
pub open spec fn is_rate(number: Binary64) -> bool {
    Binary64::zero_spec().less_eq(number) && number.less(Binary64 { bits: ONE_BITS })
}

/// Decides whether a number is greater than zero.
fn is_positive(number: Binary64) -> (decided: bool)
    ensures
        decided == positive(number),
{
    Binary64::zero().lt(&number)
}

/// Decides whether a number is a dropout rate.
fn in_rate_range(number: Binary64) -> (decided: bool)
    ensures
        decided == is_rate(number),
{
    Binary64::zero().le(&number) && number.lt(&Binary64::one())
}

impl EnsembleConfig {
    /// The first reason, if any, for which the record cannot be fitted with.
    pub open spec fn fault(self) -> Option<ConfigFault> {
        if self.n_estimators == 0 {
            Some(ConfigFault::NonPositiveEstimators)
        } else if !positive(self.learning_rate) {
            Some(ConfigFault::NonPositiveLearningRate)
        } else if !positive(self.tolerance) {
            Some(ConfigFault::NonPositiveTolerance)
        } else if !is_rate(self.dropout) {
            Some(ConfigFault::DropoutOutOfRange)
        } else if self.seed + self.n_estimators - 1 > u64::MAX {
            Some(ConfigFault::SeedRange)
        } else {
            None
        }
    }

    /// The first reason, if any, for which the arguments of [`EnsembleConfig::new`]
    /// give no configuration.
    pub open spec fn fault_of(
        n_estimators: i32,
        learning_rate: Binary64,
        n_hidden_features: i32,
        weights_distribution: Option<Seq<char>>,
        tolerance: Option<Binary64>,
        dropout: Option<Binary64>,
        seed: Option<u64>,
    ) -> Option<ConfigFault> {
        if n_estimators <= 0 {
            Some(ConfigFault::NonPositiveEstimators)
        } else if !positive(learning_rate) {
            Some(ConfigFault::NonPositiveLearningRate)
        } else if n_hidden_features < 0 {
            Some(ConfigFault::NegativeHiddenFeatures)
        } else if distribution_named(weights_distribution) is None {
            Some(ConfigFault::UnknownWeightsDistribution)
        } else if !positive(tolerance_or_default(tolerance)) {
            Some(ConfigFault::NonPositiveTolerance)
        } else if !is_rate(dropout_or_default(dropout)) {
            Some(ConfigFault::DropoutOutOfRange)
        } else if seed_or_default(seed) + n_estimators - 1 > u64::MAX {
            Some(ConfigFault::SeedRange)
        } else {
            None
        }
    }

    /// Builds a configuration. The tolerance defaults to `1e-4`, the dropout
    /// to zero, the seed to 42 and the distribution to `uniform`. The number
    /// of estimators, the learning rate and the tolerance must be greater than
    /// zero, the number of hidden features at least zero, the dropout at least
    /// zero and less than one, and the seeds of all rounds 64-bit numbers.
    pub fn new(
        n_estimators: i32,
        learning_rate: Binary64,
        n_hidden_features: i32,
        direct_link: bool,
        weights_distribution: Option<&str>,
        tolerance: Option<Binary64>,
        dropout: Option<Binary64>,
        seed: Option<u64>,
    ) -> (built: Result<EnsembleConfig, EnsembleError>)
        ensures
            match Self::fault_of(
                n_estimators,
                learning_rate,
                n_hidden_features,
                text_of(weights_distribution),
                tolerance,
                dropout,
                seed,
            ) {
                Some(fault) => built == Err::<EnsembleConfig, EnsembleError>(
                    EnsembleError::Configuration(fault),
                ),
                None => built is Ok && built->Ok_0 == (EnsembleConfig {
                    n_estimators: n_estimators as usize,
                    learning_rate,
                    n_hidden_features: n_hidden_features as usize,
                    direct_link,
                    weights_distribution: distribution_named(
                        text_of(weights_distribution),
                    )->Some_0,
                    dropout: dropout_or_default(dropout),
                    tolerance: tolerance_or_default(tolerance),
                    seed: seed_or_default(seed),
                }) && built->Ok_0.fault() is None,
            },
    {
        if n_estimators <= 0 {
            return Err(EnsembleError::Configuration(ConfigFault::NonPositiveEstimators));
        }
        if !is_positive(learning_rate) {
            return Err(EnsembleError::Configuration(ConfigFault::NonPositiveLearningRate));
        }
        if n_hidden_features < 0 {
            return Err(EnsembleError::Configuration(ConfigFault::NegativeHiddenFeatures));
        }
        let distribution = match parse_weights_distribution(weights_distribution) {
            Ok(distribution) => distribution,
            Err(error) => {
                return Err(error);
            },
        };
        let tolerance: Binary64 = match tolerance {
            Some(threshold) => threshold,
            None => Binary64 { bits: DEFAULT_TOLERANCE_BITS },
        };
        if !is_positive(tolerance) {
            return Err(EnsembleError::Configuration(ConfigFault::NonPositiveTolerance));
        }
        let dropout: Binary64 = match dropout {
            Some(rate) => rate,
            None => Binary64::zero(),
        };
        if !in_rate_range(dropout) {
            return Err(EnsembleError::Configuration(ConfigFault::DropoutOutOfRange));
        }
        let seed: u64 = match seed {
            Some(given) => given,
            None => DEFAULT_SEED,
        };
        let config = EnsembleConfig {
            n_estimators: n_estimators as usize,
            learning_rate,
            n_hidden_features: n_hidden_features as usize,
            direct_link,
            weights_distribution: distribution,
            dropout,
            tolerance,
            seed,
        };
        if seed > u64::MAX - (n_estimators as u64 - 1) {
            return Err(EnsembleError::Configuration(ConfigFault::SeedRange));
        }
        Ok(config)
    }

    /// Checks the record: at least one estimator, a learning rate and a
    /// tolerance greater than zero, a dropout at least zero and less than one,
    /// and round seeds within the 64-bit range.
    pub fn check(&self) -> (checked: Result<(), EnsembleError>)
        ensures
            checked == match self.fault() {
                Some(fault) => Err::<(), EnsembleError>(EnsembleError::Configuration(fault)),
                None => Ok(()),
            },
    {
        if self.n_estimators == 0 {
            return Err(EnsembleError::Configuration(ConfigFault::NonPositiveEstimators));
        }
        if !is_positive(self.learning_rate) {
            return Err(EnsembleError::Configuration(ConfigFault::NonPositiveLearningRate));
        }
        if !is_positive(self.tolerance) {
            return Err(EnsembleError::Configuration(ConfigFault::NonPositiveTolerance));
        }
        if !in_rate_range(self.dropout) {
            return Err(EnsembleError::Configuration(ConfigFault::DropoutOutOfRange));
        }
        if (self.n_estimators - 1) as u64 > u64::MAX - self.seed {
            return Err(EnsembleError::Configuration(ConfigFault::SeedRange));
        }
        Ok(())
    }
}

/// The seed given, or the default.
pub open spec fn seed_or_default(seed: Option<u64>) -> u64 {
    match seed {
        Some(given) => given,
        None => DEFAULT_SEED,
    }
}

/// The tolerance given, or the default.
pub open spec fn tolerance_or_default(tolerance: Option<Binary64>) -> Binary64 {
    match tolerance {
        Some(threshold) => threshold,
        None => Binary64 { bits: DEFAULT_TOLERANCE_BITS },
    }
}

/// The dropout given, or none at all.
pub open spec fn dropout_or_default(dropout: Option<Binary64>) -> Binary64 {
    match dropout {
        Some(rate) => rate,
        None => Binary64::zero_spec(),
    }
}

} // verus!
