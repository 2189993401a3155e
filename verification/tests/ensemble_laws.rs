use elm_ensemble::projector::{activate, dropout_active, dropout_mask, link};
use elm_ensemble::target::{clamp_error, greatest, largest_loss, least};
use elm_ensemble::{
    create_rng, Binary64, EnsembleConfig, FitSession, FitStep, Matrix, RoundReport, Strategy,
};
use rand::Rng;

fn enc(x: f64) -> Binary64 {
    Binary64 { bits: x.to_bits() }
}

fn dec(b: Binary64) -> f64 {
    f64::from_bits(b.bits)
}

fn all(values: &[f64]) -> Vec<Binary64> {
    values.iter().map(|v| enc(*v)).collect()
}

/// The hidden layer of a round: product, rectifier, dropout.
fn hidden_layer(x: &[Vec<f64>], w: &[Vec<f64>], dropout: f64, seed: u64) -> Matrix {
    let rows = x.len();
    let inner = w.len();
    let cols = if inner == 0 { 0 } else { w[0].len() };
    let mut product = Vec::new();
    for r in 0..rows {
        for c in 0..cols {
            let mut sum = 0.0;
            for k in 0..inner {
                sum += x[r][k] * w[k][c];
            }
            product.push(enc(sum));
        }
    }
    let hidden = activate(&Matrix::from_parts(rows, cols, product).unwrap());
    if !dropout_active(enc(dropout)) {
        return hidden;
    }
    let mut rng = create_rng(seed);
    let draws: Vec<Binary64> = (0..rows * cols).map(|_| enc(rng.gen::<f64>())).collect();
    let mask = dropout_mask(&draws, enc(dropout));
    let thinned: Vec<Binary64> = hidden
        .data()
        .iter()
        .zip(mask)
        .map(|(value, dropped)| if dropped { enc(0.0) } else { enc(dec(*value) / (1.0 - dropout)) })
        .collect();
    Matrix::from_parts(rows, cols, thinned).unwrap()
}

/// A bagging fit whose estimator remembers the mean of the first projected column.
fn bagged_fit(seed: u64, dropout: f64) -> (Vec<Vec<u64>>, Vec<u64>) {
    let x = vec![vec![1.0, 2.0], vec![3.0, 4.0], vec![5.0, 6.0]];
    let y = [1.0, 2.0, 4.0];
    let mut config =
        EnsembleConfig::new(4, enc(0.1), 3, true, None, None, Some(enc(dropout)), Some(seed))
            .unwrap();
    config.seed = seed;
    let mut session = FitSession::begin(Strategy::Bagging, config, 3, 2, &all(&y)).unwrap();
    let inputs = Matrix::from_parts(3, 2, x.iter().flatten().map(|v| enc(*v)).collect()).unwrap();
    let ensemble = loop {
        let plan = session.plan();
        let mut rng = session.round_stream();
        let w: Vec<Vec<f64>> = (0..plan.weight_rows)
            .map(|_| (0..plan.weight_cols).map(|_| rng.gen::<f64>()).collect())
            .collect();
        let hidden = hidden_layer(&x, &w, dropout, plan.seed);
        let projected = link(&inputs, &hidden, config.direct_link).unwrap();
        assert_eq!((projected.rows(), projected.cols()), (3, 5));
        let estimator: u64 = projected.data().iter().map(|v| dec(*v)).sum::<f64>().to_bits();
        let weights = Matrix::from_parts(
            plan.weight_rows,
            plan.weight_cols,
            w.iter().flatten().map(|v| enc(*v)).collect(),
        )
        .unwrap();
        match session.complete_round(weights, estimator, RoundReport::Bagging).unwrap() {
            FitStep::Continue(next) => session = next,
            FitStep::Done(ensemble) => break ensemble,
        }
    };
    let weights: Vec<Vec<u64>> = ensemble
        .rounds()
        .iter()
        .map(|round| round.weights.data().iter().map(|v| v.bits).collect())
        .collect();
    let estimators: Vec<u64> = ensemble.rounds().iter().map(|round| round.estimator).collect();
    (weights, estimators)
}

#[test]
fn two_fits_with_one_seed_agree_bit_for_bit() {
    for dropout in [0.0, 0.4] {
        let first = bagged_fit(11, dropout);
        let second = bagged_fit(11, dropout);
        assert_eq!(first, second);
        assert_eq!(first.0.len(), 4);
    }
}

#[test]
fn fits_with_different_seeds_differ() {
    assert_ne!(bagged_fit(11, 0.0), bagged_fit(12, 0.0));
    let first = bagged_fit(11, 0.0);
    assert_ne!(first.0[0], first.0[1]);
    // round one of seed 11 draws from the stream of seed 12, as round zero of seed 12 does
    assert_eq!(first.0[1], bagged_fit(12, 0.0).0[0]);
}

#[test]
fn dropout_keeps_the_expected_value() {
    let rate = 0.3;
    let value = 2.0;
    let mut total = 0.0;
    let mut count = 0usize;
    for seed in 0..200u64 {
        let mut rng = create_rng(seed);
        let draws: Vec<Binary64> = (0..100).map(|_| enc(rng.gen::<f64>())).collect();
        for dropped in dropout_mask(&draws, enc(rate)) {
            total += if dropped { 0.0 } else { value / (1.0 - rate) };
            count += 1;
        }
    }
    let mean = total / count as f64;
    assert!((mean - value).abs() < 0.02 * value, "mean {}", mean);
}

#[test]
fn dropout_drops_about_its_rate() {
    let rate = 0.25;
    let mut dropped_count = 0usize;
    let mut rng = create_rng(5);
    let draws: Vec<Binary64> = (0..20000).map(|_| enc(rng.gen::<f64>())).collect();
    for dropped in dropout_mask(&draws, enc(rate)) {
        if dropped {
            dropped_count += 1;
        }
    }
    let share = dropped_count as f64 / 20000.0;
    assert!((share - rate).abs() < 0.01, "share {}", share);
}

/// One round of the weighted strategy on given predictions; returns the
/// weighted error as it was summed, the coefficient and the new sample weights.
fn weighted_round(
    y: &[f64],
    predictions: &[f64],
    sample_weights: &[f64],
    learning_rate: f64,
) -> (f64, f64, Vec<f64>) {
    let target = all(y);
    let y_range = y[greatest(&target).unwrap()] - y[least(&target).unwrap()];
    let loss: Vec<f64> =
        y.iter().zip(predictions).map(|(a, b)| (a - b).abs() / y_range).collect();
    let max_loss = largest_loss(&all(&loss)).map(|at| loss[at]).unwrap_or(0.0);
    let normalized: Vec<f64> = loss.iter().map(|l| l / max_loss).collect();
    let raw: f64 = normalized.iter().zip(sample_weights).map(|(l, w)| l * w).sum();
    let error = dec(clamp_error(enc(raw)));
    let beta = error / (1.0 - error);
    let alpha = -(learning_rate * beta.ln());
    let unscaled: Vec<f64> = normalized
        .iter()
        .zip(sample_weights)
        .map(|(l, w)| w * beta.powf(1.0 - l))
        .collect();
    let sum: f64 = unscaled.iter().sum();
    (raw, alpha, unscaled.iter().map(|w| w / sum).collect())
}

#[test]
fn sample_weights_stay_on_the_simplex() {
    let y = [1.0, 2.0, 3.0, 5.0, 8.0];
    let mut weights = vec![0.2; 5];
    let rounds = [
        [1.5, 2.0, 2.0, 4.0, 9.0],
        [1.0, 2.5, 3.5, 5.0, 7.0],
        [0.0, 0.0, 0.0, 0.0, 0.0],
        [1.0, 2.0, 3.0, 5.0, 8.5],
    ];
    for predictions in rounds.iter() {
        let (_, alpha, next) = weighted_round(&y, predictions, &weights, 0.5);
        assert!(alpha.is_finite());
        let sum: f64 = next.iter().sum();
        assert!((sum - 1.0).abs() < 1e-12, "sum {}", sum);
        assert!(next.iter().all(|w| *w >= 0.0));
        weights = next;
    }
}

#[test]
fn weighted_round_has_exact_error_and_coefficient() {
    let y = [0.0, 1.0, 2.0, 4.0];
    let predictions = [0.0, 1.0, 3.0, 2.0];
    let (raw, alpha, next) = weighted_round(&y, &predictions, &[0.25; 4], 1.0);
    // losses 0, 0, 0.25, 0.5 of the range 4; scaled by the largest: 0, 0, 0.5, 1
    assert_eq!(raw, 0.375);
    let beta: f64 = 0.375 / (1.0 - 0.375);
    assert_eq!(alpha, -beta.ln());
    assert!(next[3] > next[2] && next[2] > next[1] && next[1] == next[0]);
}

#[test]
fn stop_follows_the_clamped_error() {
    let config = EnsembleConfig::new(5, enc(1.0), 1, false, None, Some(enc(1e-4)), None, Some(0))
        .unwrap();
    let y = all(&[0.0, 1.0, 2.0, 4.0]);
    let session = FitSession::begin(Strategy::Weighted, config, 4, 2, &y).unwrap();
    let (raw, alpha, _) =
        weighted_round(&[0.0, 1.0, 2.0, 4.0], &[0.0, 1.0, 2.0, 4.0], &[0.25; 4], 1.0);
    assert!(raw.is_nan());
    assert_eq!(alpha, -((1e-10f64 / (1.0 - 1e-10)).ln()));
    let weights = Matrix::from_parts(2, 1, vec![enc(0.5); 2]).unwrap();
    let report = RoundReport::Weighted { error: enc(raw), alpha: enc(alpha) };
    match session.complete_round(weights, (), report).unwrap() {
        FitStep::Done(ensemble) => {
            assert_eq!(ensemble.effective_n_estimators(), 1);
            assert_eq!(ensemble.rounds()[0].alpha.map(dec), Some(alpha));
        }
        FitStep::Continue(_) => panic!("an exact round ends the fit"),
    }
}
