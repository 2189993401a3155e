//! Control core of random-projection regression ensembles.
//!
//! An ensemble strengthens a base regressor by fitting it, round after round,
//! on a random single-hidden-layer transform of the inputs, and by combining
//! the rounds by residual boosting, by a per-sample median, or by a weighted
//! average in the style of AdaBoost.R2.
//!
//! This crate holds everything about that procedure that is a decision: which
//! configurations and shapes are accepted, which random stream a round draws
//! from and what its uniform draws are, which hidden units survive, when
//! fitting stops, which rounds are kept and which order statistics make a
//! median. Double-precision numbers travel through it as their IEEE-754
//! encodings ([`Binary64`]); the library orders and selects them, and leaves
//! arithmetic and the base regressor to the caller.

pub mod binary64;
pub mod config;
pub mod ensemble;
pub mod error;
pub mod matrix;
pub mod median;
pub mod projector;
pub mod rng;
pub mod target;

pub use binary64::Binary64;
pub use config::{EnsembleConfig, RegressionKind, Strategy, WeightsDistribution};
pub use ensemble::{Ensemble, FitSession, FitStep, RoundPlan, RoundReport, TrainedRound};
pub use error::{ConfigFault, EnsembleError};
pub use matrix::Matrix;
pub use rng::create_rng;
