use elm_ensemble::median::row_medians;
use elm_ensemble::projector::{activate, dropout_active, link, round_dropout_mask};
use elm_ensemble::target::{clamp_error, greatest, largest_loss, least};
use elm_ensemble::{
    Binary64, Ensemble, EnsembleConfig, EnsembleError, FitSession, FitStep, Matrix, RoundReport,
    Strategy,
};

fn enc(x: f64) -> Binary64 {
    Binary64 { bits: x.to_bits() }
}

fn dec(b: Binary64) -> f64 {
    f64::from_bits(b.bits)
}

fn all(values: &[f64]) -> Vec<Binary64> {
    values.iter().map(|v| enc(*v)).collect()
}

type Table = Vec<Vec<f64>>;

fn encode_table(rows: usize, cols: usize, table: &Table) -> Matrix {
    Matrix::from_parts(rows, cols, table.iter().flatten().map(|v| enc(*v)).collect()).unwrap()
}

fn decode_table(matrix: &Matrix) -> Table {
    (0..matrix.rows()).map(|r| matrix.row(r).unwrap().iter().map(|v| dec(*v)).collect()).collect()
}

/// A regressor on one coefficient per column, fitted by a few steps of
/// weighted gradient descent from zero.
#[derive(Clone, Debug, PartialEq)]
struct Descent {
    coefficients: Vec<f64>,
}

impl Descent {
    fn fit(x: &Table, y: &[f64], weights: &[f64]) -> Descent {
        let cols = if x.is_empty() { 0 } else { x[0].len() };
        let mut coefficients = vec![0.0; cols];
        for _ in 0..50 {
            let mut gradient = vec![0.0; cols];
            for (row, (target, weight)) in x.iter().zip(y.iter().zip(weights)) {
                let predicted: f64 = row.iter().zip(&coefficients).map(|(a, b)| a * b).sum();
                for (g, value) in gradient.iter_mut().zip(row) {
                    *g += weight * (predicted - target) * value;
                }
            }
            for (c, g) in coefficients.iter_mut().zip(&gradient) {
                *c -= 0.01 * g;
            }
        }
        Descent { coefficients }
    }

    fn predict(&self, x: &Table) -> Vec<f64> {
        x.iter().map(|row| row.iter().zip(&self.coefficients).map(|(a, b)| a * b).sum()).collect()
    }
}

fn forward_pass(x: &Table, weights: &Matrix, dropout: f64, seed: u64, direct_link: bool) -> Table {
    let rows = x.len();
    let features = weights.rows();
    let hidden_width = weights.cols();
    let mut product = Vec::with_capacity(rows * hidden_width);
    for row in x.iter() {
        for c in 0..hidden_width {
            let mut sum = 0.0;
            for k in 0..features {
                sum += row[k] * dec(weights.get(k, c).unwrap());
            }
            product.push(enc(sum));
        }
    }
    let mut hidden = activate(&Matrix::from_parts(rows, hidden_width, product).unwrap());
    if dropout_active(enc(dropout)) {
        let mask = round_dropout_mask(seed, rows * hidden_width, enc(dropout));
        let thinned: Vec<Binary64> = hidden
            .data()
            .iter()
            .zip(mask)
            .map(|(v, dropped)| if dropped { enc(0.0) } else { enc(dec(*v) / (1.0 - dropout)) })
            .collect();
        hidden = Matrix::from_parts(rows, hidden_width, thinned).unwrap();
    }
    let inputs = encode_table(rows, features, x);
    decode_table(&link(&inputs, &hidden, direct_link).unwrap())
}

fn fit(
    strategy: Strategy,
    config: EnsembleConfig,
    x: &Table,
    y: &[f64],
) -> Result<Ensemble<Descent>, EnsembleError> {
    let n = x.len();
    let features = if n == 0 { 0 } else { x[0].len() };
    let target = all(y);
    let mut session = FitSession::begin(strategy, config, n, features, &target)?;
    let learning_rate = dec(config.learning_rate);
    let dropout = dec(config.dropout);
    let mean = y.iter().sum::<f64>() / n as f64;
    let mut residual: Vec<f64> = y.iter().map(|v| v - mean).collect();
    let mut previous = f64::INFINITY;
    let mut sample_weights = vec![1.0 / n as f64; n];
    let unweighted = vec![1.0; n];
    loop {
        let plan = session.plan();
        let weights = session.uniform_weights().unwrap();
        let hidden = forward_pass(x, &weights, dropout, plan.seed, config.direct_link);
        let (estimator, report) = match strategy {
            Strategy::Boosting => {
                let estimator = Descent::fit(&hidden, &residual, &unweighted);
                let predictions = estimator.predict(&hidden);
                for (r, p) in residual.iter_mut().zip(&predictions) {
                    *r -= learning_rate * p;
                }
                let current: f64 = residual.iter().map(|r| r * r).sum();
                let gap = (current - previous).abs();
                previous = current;
                (estimator, RoundReport::Boosting { gap: enc(gap) })
            }
            Strategy::Bagging => (Descent::fit(&hidden, y, &unweighted), RoundReport::Bagging),
            Strategy::Weighted => {
                let estimator = Descent::fit(&hidden, y, &sample_weights);
                let predictions = estimator.predict(&hidden);
                let range = y[greatest(&target).unwrap()] - y[least(&target).unwrap()];
                let loss: Vec<f64> =
                    y.iter().zip(&predictions).map(|(a, b)| (a - b).abs() / range).collect();
                let max_loss = largest_loss(&all(&loss)).map(|at| loss[at]).unwrap_or(0.0);
                let normalized: Vec<f64> = loss.iter().map(|l| l / max_loss).collect();
                let raw: f64 = normalized.iter().zip(&sample_weights).map(|(l, w)| l * w).sum();
                let error = dec(clamp_error(enc(raw)));
                let beta = error / (1.0 - error);
                let alpha = -(learning_rate * beta.ln());
                for (w, l) in sample_weights.iter_mut().zip(&normalized) {
                    *w *= beta.powf(1.0 - l);
                }
                let sum: f64 = sample_weights.iter().sum();
                for w in sample_weights.iter_mut() {
                    *w /= sum;
                }
                assert!((sample_weights.iter().sum::<f64>() - 1.0).abs() < 1e-12);
                assert!(sample_weights.iter().all(|w| *w >= 0.0));
                (estimator, RoundReport::Weighted { error: enc(raw), alpha: enc(alpha) })
            }
        };
        match session.complete_round(weights, estimator, report)? {
            FitStep::Continue(next) => session = next,
            FitStep::Done(ensemble) => return Ok(ensemble),
        }
    }
}

fn predict(ensemble: &Ensemble<Descent>, x: &Table) -> Result<Vec<f64>, EnsembleError> {
    let features = if x.is_empty() { 0 } else { x[0].len() };
    ensemble.check_features(features)?;
    let config = ensemble.config();
    let rounds = ensemble.rounds();
    let per_round: Vec<Vec<f64>> = rounds
        .iter()
        .map(|round| {
            let hidden = forward_pass(x, &round.weights, 0.0, config.seed, config.direct_link);
            round.estimator.predict(&hidden)
        })
        .collect();
    let n = x.len();
    Ok(match ensemble.strategy() {
        Strategy::Boosting => (0..n)
            .map(|i| per_round.iter().map(|p| dec(config.learning_rate) * p[i]).sum())
            .collect(),
        Strategy::Bagging => {
            let stacked: Vec<Binary64> =
                (0..n).flat_map(|i| per_round.iter().map(move |p| enc(p[i]))).collect();
            let stacked = Matrix::from_parts(n, rounds.len(), stacked).unwrap();
            row_medians(&stacked)
                .unwrap()
                .iter()
                .enumerate()
                .map(|(i, &(lower, upper))| (per_round[lower][i] + per_round[upper][i]) / 2.0)
                .collect()
        }
        Strategy::Weighted => {
            let alphas: Vec<f64> = rounds.iter().map(|r| dec(r.alpha.unwrap())).collect();
            let total: f64 = alphas.iter().sum();
            (0..n)
                .map(|i| per_round.iter().zip(&alphas).map(|(p, a)| a * p[i]).sum::<f64>() / total)
                .collect()
        }
    })
}

fn data() -> (Table, Vec<f64>) {
    let x: Table = (0..12)
        .map(|i| {
            let t = i as f64 / 4.0;
            vec![t, 1.0 - 0.5 * t, (t * 1.3).sin()]
        })
        .collect();
    let y: Vec<f64> = x.iter().map(|row| 2.0 * row[0] - row[1] + 0.5 * row[2]).collect();
    (x, y)
}

fn config(n_estimators: i32, direct_link: bool, dropout: f64, seed: u64) -> EnsembleConfig {
    EnsembleConfig::new(
        n_estimators,
        enc(0.5),
        4,
        direct_link,
        None,
        Some(enc(1e-9)),
        Some(enc(dropout)),
        Some(seed),
    )
    .unwrap()
}

#[test]
fn every_strategy_fits_and_predicts() {
    let (x, y) = data();
    for strategy in [Strategy::Boosting, Strategy::Bagging, Strategy::Weighted] {
        for direct_link in [false, true] {
            let ensemble = fit(strategy, config(5, direct_link, 0.2, 3), &x, &y).unwrap();
            let n = ensemble.effective_n_estimators();
            assert!(n >= 1 && n <= 5);
            assert_eq!(ensemble.rounds().len(), n);
            assert_eq!(ensemble.n_features(), 3);
            let predictions = predict(&ensemble, &x).unwrap();
            assert_eq!(predictions.len(), 12);
            assert!(predictions.iter().all(|p| p.is_finite()));
        }
    }
}

#[test]
fn fit_and_predict_repeat_bit_for_bit() {
    let (x, y) = data();
    for strategy in [Strategy::Boosting, Strategy::Bagging, Strategy::Weighted] {
        let run = || {
            let ensemble = fit(strategy, config(4, true, 0.3, 21), &x, &y).unwrap();
            let bits: Vec<u64> =
                predict(&ensemble, &x).unwrap().iter().map(|p| p.to_bits()).collect();
            let estimators: Vec<Descent> =
                ensemble.rounds().iter().map(|r| r.estimator.clone()).collect();
            (bits, estimators)
        };
        assert_eq!(run(), run());
    }
}

#[test]
fn another_seed_gives_another_ensemble() {
    let (x, y) = data();
    let first = fit(Strategy::Bagging, config(3, false, 0.0, 1), &x, &y).unwrap();
    let second = fit(Strategy::Bagging, config(3, false, 0.0, 2), &x, &y).unwrap();
    assert_ne!(first.rounds()[0].weights.data(), second.rounds()[0].weights.data());
    assert_eq!(first.rounds()[1].weights.data(), second.rounds()[0].weights.data());
}

#[test]
fn bagging_fits_all_configured_rounds() {
    let (x, y) = data();
    let ensemble = fit(Strategy::Bagging, config(6, false, 0.0, 5), &x, &y).unwrap();
    assert_eq!(ensemble.effective_n_estimators(), 6);
}

#[test]
fn predicting_on_other_features_is_a_shape_mismatch() {
    let (x, y) = data();
    let narrow: Table = x.iter().map(|row| row[..2].to_vec()).collect();
    for strategy in [Strategy::Boosting, Strategy::Bagging, Strategy::Weighted] {
        let ensemble = fit(strategy, config(2, false, 0.0, 5), &x, &y).unwrap();
        assert_eq!(
            predict(&ensemble, &narrow),
            Err(EnsembleError::ShapeMismatch { expected: 3, found: 2 })
        );
    }
}

#[test]
fn weighted_fit_refuses_a_constant_target() {
    let (x, _) = data();
    let y = vec![3.5; 12];
    assert_eq!(
        fit(Strategy::Weighted, config(3, false, 0.0, 5), &x, &y).err(),
        Some(EnsembleError::DegenerateTarget)
    );
    assert!(fit(Strategy::Bagging, config(3, false, 0.0, 5), &x, &y).is_ok());
}

#[test]
fn target_of_other_length_is_a_shape_mismatch() {
    let (x, y) = data();
    for strategy in [Strategy::Boosting, Strategy::Bagging, Strategy::Weighted] {
        assert_eq!(
            fit(strategy, config(3, false, 0.0, 5), &x, &y[..11]).err(),
            Some(EnsembleError::ShapeMismatch { expected: 12, found: 11 })
        );
    }
}

#[test]
fn bagged_prediction_is_the_median_of_the_rounds() {
    let (x, y) = data();
    let ensemble = fit(Strategy::Bagging, config(4, false, 0.0, 8), &x, &y).unwrap();
    let predictions = predict(&ensemble, &x).unwrap();
    let config = ensemble.config();
    for (i, prediction) in predictions.iter().enumerate() {
        let mut of_rounds: Vec<f64> = ensemble
            .rounds()
            .iter()
            .map(|round| {
                let hidden =
                    forward_pass(&x, &round.weights, 0.0, config.seed, config.direct_link);
                round.estimator.predict(&hidden)[i]
            })
            .collect();
        of_rounds.sort_by(|a, b| a.partial_cmp(b).unwrap());
        assert_eq!(*prediction, (of_rounds[1] + of_rounds[2]) / 2.0);
    }
}
