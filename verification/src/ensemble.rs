use vstd::prelude::*;
use rand_chacha::ChaCha20Rng;
use crate::binary64::Binary64;
use crate::config::{EnsembleConfig, Strategy, WeightsDistribution};
use crate::error::{ConfigFault, EnsembleError};
use crate::matrix::{Matrix, MatrixView};
use crate::rng::{create_rng, seeded_uniform_weights, seeded_units, seeded_word, upcoming};
use crate::target::{clamp_error, clamped_error, constant_target, is_constant};

verus! {

/// What one round of fitting leaves behind: the projection weights it drew,
/// the estimator it fitted on the projected inputs, and, under the weighted
/// strategy only, the coefficient its prediction is averaged with.
#[derive(Debug)]
pub struct TrainedRound<E> {
    pub weights: Matrix,
    pub estimator: E,
    pub alpha: Option<Binary64>,
}

/// What the caller observed in a round, in the form of the fit's strategy.
#[derive(Clone, Copy, Debug, PartialEq, Eq, Structural)]
pub enum RoundReport {
    /// The absolute change of the squared residual norm against the round
    /// before; in the first round, against infinity.
    Boosting { gap: Binary64 },
    /// Nothing: bagging fits every round.
    Bagging,
    /// The weighted error of the round and the coefficient computed from it.
    Weighted { error: Binary64, alpha: Binary64 },
}

impl RoundReport {
    /// The strategy whose form the report has.
    pub open spec fn strategy(self) -> Strategy {
        match self {
            RoundReport::Boosting { .. } => Strategy::Boosting,
            RoundReport::Bagging => Strategy::Bagging,
            RoundReport::Weighted { .. } => Strategy::Weighted,
        }
    }

    /// The coefficient that the report carries.
    pub open spec fn alpha(self) -> Option<Binary64> {
        match self {
            RoundReport::Weighted { alpha, .. } => Some(alpha),
            _ => None,
        }
    }
}

/// What the round that is due has to be carried out with.
#[derive(Clone, Copy, Debug, PartialEq, Eq, Structural)]
pub struct RoundPlan {
    /// The index of the round, counted from zero.
    pub index: usize,
    /// The seed of the round's own random stream.
    pub seed: u64,
    /// The number of rows of the projection weights: the number of features.
    pub weight_rows: usize,
    /// The number of columns of the projection weights: the hidden width.
    pub weight_cols: usize,
}

/// An ensemble as mathematics sees it, finished or still being fitted.
pub struct EnsembleView<E> {
    pub strategy: Strategy,
    pub config: EnsembleConfig,
    pub n_features: nat,
    pub rounds: Seq<TrainedRound<E>>,
}

impl<E> EnsembleView<E> {
    /// Whether a round has the shape and the form that the ensemble keeps.
    pub open spec fn admits(self, round: TrainedRound<E>) -> bool {
        &&& round.weights@.rows == self.n_features
        &&& round.weights@.cols == self.config.n_hidden_features
        &&& (round.alpha is Some <==> self.strategy == Strategy::Weighted)
    }

    /// The configuration is sound, no more rounds are kept than it allows,
    /// and every round is admitted.
    pub open spec fn consistent(self) -> bool {
        &&& self.config.fault() is None
        &&& self.rounds.len() <= self.config.n_estimators
        &&& forall|i: int| 0 <= i < self.rounds.len() ==> self.admits(#[trigger] self.rounds[i])
    }

    /// The ensemble with one more round at its end.
    pub open spec fn with_round(self, round: TrainedRound<E>) -> EnsembleView<E> {
        EnsembleView { rounds: self.rounds.push(round), ..self }
    }

    /// Why a round is not taken, if it is not: its report has the form of
    /// another strategy, or its weights have not the planned shape.
    pub open spec fn refusal(self, weights: MatrixView, report: RoundReport) -> Option<
        EnsembleError,
    > {
        if report.strategy() != self.strategy {
            Some(EnsembleError::Configuration(ConfigFault::ForeignReport))
        } else if weights.rows != self.n_features {
            Some(
                EnsembleError::ShapeMismatch {
                    expected: self.n_features as usize,
                    found: weights.rows as usize,
                },
            )
        } else if weights.cols != self.config.n_hidden_features {
            Some(
                EnsembleError::ShapeMismatch {
                    expected: self.config.n_hidden_features,
                    found: weights.cols as usize,
                },
            )
        } else {
            None
        }
    }

    /// Whether the round reported ends the fit before the configured number
    /// of rounds. Boosting stops on a plateau: the squared residual norm moved
    /// by no more than the tolerance; the first round has nothing to compare
    /// with and never stops. The weighted strategy stops when the round's
    /// error, brought into `[1e-10, 1 - 1e-10]`, is below the tolerance.
    /// Bagging never stops early.
    pub open spec fn stops_early(self, report: RoundReport) -> bool {
        match report {
            RoundReport::Boosting { gap } => self.rounds.len() >= 1 && gap.less_eq(
                self.config.tolerance,
            ),
            RoundReport::Bagging => false,
            RoundReport::Weighted { error, .. } => clamped_error(error).less(
                self.config.tolerance,
            ),
        }
    }

    /// Whether the round reported is the last of the fit.
    pub open spec fn stops_after(self, report: RoundReport) -> bool {
        self.rounds.len() + 1 >= self.config.n_estimators || self.stops_early(report)
    }
}

/// Why a fit cannot begin, if it cannot: the configuration is unsound, the
/// target has not one sample per row of the inputs, or the strategy is the
/// weighted one and the target is constant.
pub open spec fn begin_refusal(
    strategy: Strategy,
    config: EnsembleConfig,
    n_samples: usize,
    target: Seq<Binary64>,
) -> Option<EnsembleError> {
    if config.fault() is Some {
        Some(EnsembleError::Configuration(config.fault()->Some_0))
    } else if target.len() != n_samples {
        Some(EnsembleError::ShapeMismatch { expected: n_samples, found: target.len() as usize })
    } else if strategy == Strategy::Weighted && constant_target(target) {
        Some(EnsembleError::DegenerateTarget)
    } else {
        None
    }
}

/// A target whose samples are all the same number is refused under the
/// weighted strategy, whatever else is asked for.
pub proof fn lemma_constant_target_refused(
    config: EnsembleConfig,
    n_samples: usize,
    target: Seq<Binary64>,
)
    requires
        config.fault() is None,
        target.len() == n_samples,
        forall|i: int, j: int|
            0 <= i < target.len() && 0 <= j < target.len() ==> target[i].same_value(target[j]),
    ensures
        begin_refusal(Strategy::Weighted, config, n_samples, target) == Some(
            EnsembleError::DegenerateTarget,
        ),
{
    assert forall|i: int, j: int|
        0 <= i < target.len() && 0 <= j < target.len() && !target[i].nan()
            && !target[j].nan() implies target[i].key() == target[j].key() by {
        assert(target[i].same_value(target[j]));
    }
}

/// The round count law: a round that is taken while one is due lengthens
/// the ensemble by exactly that round and leaves it consistent. Weights,
/// estimators and, under the weighted strategy, coefficients are therefore
/// always equal in number, and never more than the configured number of
/// estimators.
pub proof fn lemma_round_count<E>(
    before: EnsembleView<E>,
    round: TrainedRound<E>,
    report: RoundReport,
)
    requires
        before.consistent(),
        before.rounds.len() < before.config.n_estimators,
        before.refusal(round.weights@, report) is None,
        round.alpha == report.alpha(),
    ensures
        before.with_round(round).consistent(),
        before.with_round(round).rounds.len() == before.rounds.len() + 1,
        before.with_round(round).rounds.len() <= before.config.n_estimators,
{
    let after = before.with_round(round);
    assert forall|i: int| 0 <= i < after.rounds.len() implies after.admits(
        #[trigger] after.rounds[i],
    ) by {
        if i < before.rounds.len() {
            // a round kept before is the same round afterwards
            assert(after.rounds[i] == before.rounds[i]);
            assert(before.admits(before.rounds[i]));
        }
    }
}

/// A fitted ensemble: at least one round and at most as many as configured,
/// in the order in which they were fitted.
#[derive(Debug)]
pub struct Ensemble<E> {
    strategy: Strategy,
    config: EnsembleConfig,
    n_features: usize,
    rounds: Vec<TrainedRound<E>>,
}

/// A fit in progress. It is begun on the shapes of the inputs, names the
/// round that is due, takes that round's outcome and either goes on or ends
/// in an [`Ensemble`]. The caller does the numeric work of each round in
/// between. A fit that fails in any round leaves no ensemble behind.
#[derive(Debug)]
pub struct FitSession<E> {
    strategy: Strategy,
    config: EnsembleConfig,
    n_features: usize,
    rounds: Vec<TrainedRound<E>>,
}

/// Where a fit stands after a round.
#[derive(Debug)]
pub enum FitStep<E> {
    /// Another round is due.
    Continue(FitSession<E>),
    /// The round was the last one.
    Done(Ensemble<E>),
}

impl<E> View for FitSession<E> {
    type V = EnsembleView<E>;

    closed spec fn view(&self) -> EnsembleView<E> {
        EnsembleView {
            strategy: self.strategy,
            config: self.config,
            n_features: self.n_features as nat,
            rounds: self.rounds@,
        }
    }
}

impl<E> View for Ensemble<E> {
    type V = EnsembleView<E>;

    closed spec fn view(&self) -> EnsembleView<E> {
        EnsembleView {
            strategy: self.strategy,
            config: self.config,
            n_features: self.n_features as nat,
            rounds: self.rounds@,
        }
    }
}

impl<E> FitSession<E> {
    #[verifier::type_invariant]
    spec fn round_due(self) -> bool {
        self@.consistent() && self.rounds@.len() < self.config.n_estimators
    }

    /// Begins a fit of inputs with `n_samples` rows and `n_features` columns
    /// against `target`. No round has been fitted yet.
    pub fn begin(
        strategy: Strategy,
        config: EnsembleConfig,
        n_samples: usize,
        n_features: usize,
        target: &Vec<Binary64>,
    ) -> (begun: Result<FitSession<E>, EnsembleError>)
        ensures
            match begun {
                Ok(session) => begin_refusal(strategy, config, n_samples, target@) is None
                    && session@ == (EnsembleView {
                    strategy,
                    config,
                    n_features: n_features as nat,
                    rounds: Seq::<TrainedRound<E>>::empty(),
                }),
                Err(error) => begin_refusal(strategy, config, n_samples, target@) == Some(error),
            },
    {
        match config.check() {
            Ok(()) => {},
            Err(error) => {
                return Err(error);
            },
        }
        if target.len() != n_samples {
            return Err(EnsembleError::ShapeMismatch { expected: n_samples, found: target.len() });
        }
        if strategy == Strategy::Weighted && is_constant(target) {
            return Err(EnsembleError::DegenerateTarget);
        }
        Ok(FitSession { strategy, config, n_features, rounds: Vec::new() })
    }

    /// The strategy of the fit.
    pub fn strategy(&self) -> (strategy: Strategy)
        ensures
            strategy == self@.strategy,
    {
        self.strategy
    }

    /// The configuration of the fit.
    pub fn config(&self) -> (config: EnsembleConfig)
        ensures
            config == self@.config,
            config.fault() is None,
    {
        proof {
            use_type_invariant(self);
        }
        self.config
    }

    /// The round that is due: its index is the number of rounds fitted so far,
    /// its seed the base seed plus that index, and its weights have one row
    /// per feature and one column per hidden unit.
    pub fn plan(&self) -> (plan: RoundPlan)
        ensures
            plan.index == self@.rounds.len(),
            plan.index < self@.config.n_estimators,
            plan.seed == self@.config.seed + plan.index,
            plan.weight_rows == self@.n_features,
            plan.weight_cols == self@.config.n_hidden_features,
            self@.consistent(),
    {
        proof {
            use_type_invariant(self);
        }
        let index: usize = self.rounds.len();
        RoundPlan {
            index,
            seed: self.config.seed + index as u64,
            weight_rows: self.n_features,
            weight_cols: self.config.n_hidden_features,
        }
    }

    /// The random stream of the round that is due, at its first word: the
    /// stream of the base seed plus the index of the round. The projection
    /// weights of the round are drawn from it, and its dropout draws from a
    /// stream made anew in the same way.
    pub fn round_stream(&self) -> (rng: ChaCha20Rng)
        ensures
            self@.config.seed + self@.rounds.len() <= u64::MAX,
            forall|at: nat| #[trigger]
                upcoming(rng, at) == seeded_word(
                    (self@.config.seed + self@.rounds.len()) as u64,
                    at,
                ),
    {
        let plan = self.plan();
        create_rng(plan.seed)
    }

    /// Draws the projection weights of the round that is due, where the
    /// configured distribution is the uniform one: one row per feature, one
    /// column per hidden unit, filled row by row with the first uniform draws
    /// of the round's stream. There are none where the distribution is the
    /// normal one, whose draws are the caller's, or where the matrix has more
    /// entries than a machine can count.
    pub fn uniform_weights(&self) -> (weights: Option<Matrix>)
        ensures
            weights is Some <==> self@.config.weights_distribution == WeightsDistribution::Uniform
                && self@.n_features * self@.config.n_hidden_features <= usize::MAX,
            weights is Some ==> weights->Some_0@ == (MatrixView {
                rows: self@.n_features,
                cols: self@.config.n_hidden_features as nat,
                data: seeded_units(
                    (self@.config.seed + self@.rounds.len()) as u64,
                    (self@.n_features * self@.config.n_hidden_features) as nat,
                ),
            }),
    {
        let plan = self.plan();
        match self.config.weights_distribution {
            WeightsDistribution::Uniform => seeded_uniform_weights(
                plan.seed,
                plan.weight_rows,
                plan.weight_cols,
            ),
            WeightsDistribution::Normal => None,
        }
    }

    /// Takes the outcome of the round that was due. The round is refused, and
    /// the fit given up, if the report has the form of another strategy or the
    /// weights have not the planned shape. Otherwise the round is kept behind
    /// the rounds before it, and the fit ends with it exactly when it was the
    /// last configured round or the report meets the strategy's criterion for
    /// stopping early.
    pub fn complete_round(self, weights: Matrix, estimator: E, report: RoundReport) -> (step:
        Result<FitStep<E>, EnsembleError>)
        ensures
            match step {
                Err(error) => self@.refusal(weights@, report) == Some(error),
                Ok(FitStep::Continue(session)) => {
                    &&& self@.refusal(weights@, report) is None
                    &&& !self@.stops_after(report)
                    &&& session@ == self@.with_round(
                        TrainedRound { weights, estimator, alpha: report.alpha() },
                    )
                },
                Ok(FitStep::Done(ensemble)) => {
                    &&& self@.refusal(weights@, report) is None
                    &&& self@.stops_after(report)
                    &&& ensemble@ == self@.with_round(
                        TrainedRound { weights, estimator, alpha: report.alpha() },
                    )
                    &&& ensemble@.consistent()
                    &&& 1 <= ensemble@.rounds.len() <= ensemble@.config.n_estimators
                },
            },
    {
        proof {
            use_type_invariant(&self);
        }
        let FitSession { strategy, config, n_features, rounds } = self;
        let mut rounds = rounds;
        let index: usize = rounds.len();
        let (early, alpha, form): (bool, Option<Binary64>, Strategy) = match report {
            RoundReport::Boosting { gap } => (
                index >= 1 && gap.le(&config.tolerance),
                None,
                Strategy::Boosting,
            ),
            RoundReport::Bagging => (false, None, Strategy::Bagging),
            RoundReport::Weighted { error, alpha } => (
                clamp_error(error).lt(&config.tolerance),
                Some(alpha),
                Strategy::Weighted,
            ),
        };
        if form != strategy {
            return Err(EnsembleError::Configuration(ConfigFault::ForeignReport));
        }
        let found_rows: usize = weights.rows();
        if found_rows != n_features {
            return Err(EnsembleError::ShapeMismatch { expected: n_features, found: found_rows });
        }
        let found_cols: usize = weights.cols();
        if found_cols != config.n_hidden_features {
            return Err(
                EnsembleError::ShapeMismatch {
                    expected: config.n_hidden_features,
                    found: found_cols,
                },
            );
        }
        let ghost before = rounds@;
        let round = TrainedRound { weights, estimator, alpha };
        rounds.push(round);
        proof {
            let after = EnsembleView {
                strategy,
                config,
                n_features: n_features as nat,
                rounds: rounds@,
            };
            assert forall|i: int| 0 <= i < rounds@.len() implies after.admits(
                #[trigger] rounds@[i],
            ) by {
                if i < before.len() {
                    // a round kept before is the same round afterwards
                    assert(rounds@[i] == before[i]);
                    assert(self@.admits(before[i]));
                }
            }
        }
        if index + 1 >= config.n_estimators || early {
            Ok(FitStep::Done(Ensemble { strategy, config, n_features, rounds }))
        } else {
            Ok(FitStep::Continue(FitSession { strategy, config, n_features, rounds }))
        }
    }

    /// Gives the fit up because the base estimator could not be fitted in the
    /// round that was due.
    pub fn fit_failed(self) -> (error: EnsembleError)
        ensures
            error == (EnsembleError::CollaboratorFit { round: self@.rounds.len() as usize }),
    {
        EnsembleError::CollaboratorFit { round: self.rounds.len() }
    }

    /// Gives the fit up because the base estimator, once fitted, could not
    /// predict in the round that was due.
    pub fn predict_failed(self) -> (error: EnsembleError)
        ensures
            error == (EnsembleError::CollaboratorPredict { round: self@.rounds.len() as usize }),
    {
        EnsembleError::CollaboratorPredict { round: self.rounds.len() }
    }
}

impl<E> Ensemble<E> {
    #[verifier::type_invariant]
    spec fn fitted(self) -> bool {
        self@.consistent() && self.rounds@.len() >= 1
    }

    /// The strategy the ensemble was fitted with.
    pub fn strategy(&self) -> (strategy: Strategy)
        ensures
            strategy == self@.strategy,
    {
        self.strategy
    }

    /// The configuration the ensemble was fitted with.
    pub fn config(&self) -> (config: EnsembleConfig)
        ensures
            config == self@.config,
            config.fault() is None,
    {
        proof {
            use_type_invariant(self);
        }
        self.config
    }

    /// The number of features of the inputs the ensemble was fitted on.
    pub fn n_features(&self) -> (n_features: usize)
        ensures
            n_features == self@.n_features,
    {
        self.n_features
    }

    /// The number of rounds that were fitted: at least one, and no more than
    /// were configured.
    pub fn effective_n_estimators(&self) -> (count: usize)
        ensures
            count == self@.rounds.len(),
            1 <= count <= self@.config.n_estimators,
    {
        proof {
            use_type_invariant(self);
        }
        self.rounds.len()
    }

    /// The rounds in the order in which they were fitted. Each has weights of
    /// one row per feature and one column per hidden unit, and a coefficient
    /// exactly under the weighted strategy.
    pub fn rounds(&self) -> (rounds: &Vec<TrainedRound<E>>)
        ensures
            rounds@ == self@.rounds,
            self@.consistent(),
            1 <= rounds@.len() <= self@.config.n_estimators,
    {
        proof {
            use_type_invariant(self);
        }
        &self.rounds
    }

    /// Checks inputs to predict on: they must have the number of features
    /// that the ensemble was fitted on.
    pub fn check_features(&self, found: usize) -> (checked: Result<(), EnsembleError>)
        ensures
            checked == if found == self@.n_features {
                Ok::<(), EnsembleError>(())
            } else {
                Err(EnsembleError::ShapeMismatch { expected: self@.n_features as usize, found })
            },
    {
        if found == self.n_features {
            Ok(())
        } else {
            Err(EnsembleError::ShapeMismatch { expected: self.n_features, found })
        }
    }

}

} // verus!
