use rusty_machine::learning::optim::grad_desc::{OptimError, StochasticGD};
use rusty_machine::learning::optim::{OptimAlgorithm, Optimizable};
use rusty_machine::linalg::matrix::Matrix;
use std::cell::RefCell;

/// Notes the single row it is shown in each call, by the value in its first
/// column, and answers with that value as the gradient in every entry.
struct RowEcho {
    seen: RefCell<Vec<f64>>,
    params: RefCell<Vec<Vec<f64>>>,
}

impl RowEcho {
    fn new() -> RowEcho {
        RowEcho { seen: RefCell::new(Vec::new()), params: RefCell::new(Vec::new()) }
    }
}

impl Optimizable for RowEcho {
    type Scalar = f64;
    type Data = Matrix<f64>;
    type Target = Matrix<f64>;

    fn compute_grad(&self, params: &[f64], data: &Matrix<f64>, targets: &Matrix<f64>) -> (f64, Vec<f64>) {
        assert_eq!(data.rows(), 1);
        assert_eq!(targets.rows(), 1);
        assert_eq!(data.data()[0], targets.data()[0]);
        self.seen.borrow_mut().push(data.data()[0]);
        self.params.borrow_mut().push(params.to_vec());
        (0.0, vec![data.data()[0]; params.len()])
    }
}

/// Squared error of the one-feature model `y = w * x`, row by row: the
/// gradient over a row `(x, y)` is `(w * x - y) * x`.
struct Line;

impl Optimizable for Line {
    type Scalar = f64;
    type Data = Matrix<f64>;
    type Target = Matrix<f64>;

    fn compute_grad(&self, params: &[f64], data: &Matrix<f64>, targets: &Matrix<f64>) -> (f64, Vec<f64>) {
        let mut cost = 0.0;
        let mut grad = 0.0;
        for r in 0..data.rows() {
            let x = data.data()[r];
            let e = params[0] * x - targets.data()[r];
            cost += e * e / 2.0;
            grad += e * x;
        }
        (cost, vec![grad])
    }
}

fn numbered_rows(rows: usize) -> Matrix<f64> {
    Matrix::new(rows, 1, (0..rows).map(|r| r as f64).collect())
}

#[test]
fn stochastic_gd_new_keeps_its_arguments() {
    let sgd = StochasticGD::new(0.1, 0.3, 5);
    assert_eq!(sgd.alpha, 0.1);
    assert_eq!(sgd.mu, 0.3);
    assert_eq!(sgd.iters, 5);
}

#[test]
fn stochastic_gd_default_is_a_tenth_twice_and_twenty_passes() {
    let sgd: StochasticGD<f64> = StochasticGD::default();
    assert_eq!(sgd.alpha.to_bits(), 0.1_f64.to_bits());
    assert_eq!(sgd.mu.to_bits(), 0.1_f64.to_bits());
    assert_eq!(sgd.iters, 20);

    let single: StochasticGD<f32> = StochasticGD::default();
    assert_eq!(single.alpha.to_bits(), 0.1_f32.to_bits());
    assert_eq!(single.mu.to_bits(), 0.1_f32.to_bits());
    assert_eq!(single.iters, 20);
}

#[test]
fn stochastic_gd_visits_rows_in_order_and_the_first_row_once() {
    let data = numbered_rows(3);
    let targets = numbered_rows(3);
    let model = RowEcho::new();
    let sgd = StochasticGD::new(0.1, 0.1, 2);
    sgd.optimize(&model, &[0.0], &data, &targets);
    assert_eq!(*model.seen.borrow(), vec![0.0, 1.0, 2.0, 1.0, 2.0]);
}

#[test]
fn stochastic_gd_evaluates_once_and_then_once_per_later_row_and_pass() {
    for rows in 1..6 {
        for iters in [0, 1, 2, 5] {
            let data = numbered_rows(rows);
            let targets = numbered_rows(rows);
            let model = RowEcho::new();
            let sgd = StochasticGD::new(0.5, 0.25, iters);
            sgd.optimize(&model, &[0.0, 0.0], &data, &targets);
            let seen = model.seen.borrow();
            assert_eq!(seen.len(), 1 + iters * (rows - 1));
            assert_eq!(seen[0], 0.0);
            for (k, row) in seen.iter().enumerate().skip(1) {
                assert_eq!(*row, (1 + (k - 1) % (rows - 1)) as f64);
            }
        }
    }
}

#[test]
fn stochastic_gd_takes_the_first_step_from_the_first_row() {
    // One row: delta = 4 * 0.5 = 2, and the position moves by 2 * 0.25.
    let data = Matrix::new(1, 1, vec![4.0]);
    let targets = Matrix::new(1, 1, vec![4.0]);
    for iters in [0, 1, 9] {
        let model = RowEcho::new();
        let sgd = StochasticGD::new(0.5, 0.25, iters);
        assert_eq!(sgd.optimize(&model, &[1.0, -1.0], &data, &targets), vec![0.5, -1.5]);
        assert_eq!(*model.seen.borrow(), vec![4.0]);
    }
    // No pass: of several rows only the first is looked at.
    let data = Matrix::new(3, 1, vec![4.0, 100.0, 1000.0]);
    let targets = Matrix::new(3, 1, vec![4.0, 100.0, 1000.0]);
    let model = RowEcho::new();
    let sgd = StochasticGD::new(0.5, 0.25, 0);
    assert_eq!(sgd.optimize(&model, &[1.0, -1.0], &data, &targets), vec![0.5, -1.5]);
    assert_eq!(*model.seen.borrow(), vec![4.0]);
}

#[test]
fn stochastic_gd_carries_the_momentum_across_rows_and_passes() {
    // Gradients: row 0 gives 2, row 1 gives 4; alpha = 0.5, mu = 0.25.
    //   first step: delta = 2 * 0.5 = 1            w = 0 - 1 * 0.25 = -0.25
    //   pass 1:     delta = 4 * 0.25 + 1 * 0.5     = 1.5   w = -0.625
    //   pass 2:     delta = 4 * 0.25 + 1.5 * 0.5   = 1.75  w = -1.0625
    let data = Matrix::new(2, 1, vec![2.0, 4.0]);
    let targets = Matrix::new(2, 1, vec![2.0, 4.0]);
    let expected = [-0.25, -0.625, -1.0625];
    for iters in 0..3 {
        let model = RowEcho::new();
        let sgd = StochasticGD::new(0.5, 0.25, iters);
        assert_eq!(sgd.optimize(&model, &[0.0], &data, &targets), vec![expected[iters]]);
    }
}

#[test]
fn stochastic_gd_asks_at_the_position_it_has_reached() {
    let data = Matrix::new(2, 1, vec![2.0, 4.0]);
    let targets = Matrix::new(2, 1, vec![2.0, 4.0]);
    let model = RowEcho::new();
    let sgd = StochasticGD::new(0.5, 0.25, 2);
    sgd.optimize(&model, &[0.0], &data, &targets);
    assert_eq!(*model.params.borrow(), vec![vec![0.0], vec![-0.25], vec![-0.625]]);
}

#[test]
fn stochastic_gd_sweeps_three_rows_with_exact_steps() {
    // Gradients by row: 1, 2, 4; alpha = 0.5, mu = 0.5, one pass.
    //   first step: delta = 1 * 0.5 = 0.5             w = 8 - 0.25   = 7.75
    //   row 1:      delta = 2 * 0.5 + 0.5 * 0.5 = 1.25  w = 7.75 - 0.625 = 7.125
    //   row 2:      delta = 4 * 0.5 + 1.25 * 0.5 = 2.625 w = 7.125 - 1.3125 = 5.8125
    let data = Matrix::new(3, 1, vec![1.0, 2.0, 4.0]);
    let targets = Matrix::new(3, 1, vec![1.0, 2.0, 4.0]);
    let model = RowEcho::new();
    let sgd = StochasticGD::new(0.5, 0.5, 1);
    assert_eq!(sgd.optimize(&model, &[8.0], &data, &targets), vec![5.8125]);
}

#[test]
fn stochastic_gd_keeps_the_dimension_of_the_start() {
    for dim in 0..5 {
        for rows in 1..4 {
            for iters in [0, 1, 3] {
                let data = numbered_rows(rows);
                let targets = numbered_rows(rows);
                let model = RowEcho::new();
                let sgd = StochasticGD::new(0.1, 0.1, iters);
                let start = vec![1.0; dim];
                assert_eq!(sgd.optimize(&model, &start, &data, &targets).len(), dim);
            }
        }
    }
}

#[test]
fn stochastic_gd_without_momentum_decay_is_a_descent_row_by_row() {
    // With alpha = 0 the first step moves nothing, and each later row moves
    // the position against its own gradient by mu * mu.
    let data = Matrix::new(2, 1, vec![1.0, 2.0]);
    let targets = Matrix::new(2, 1, vec![2.0, 4.0]);
    let mu = 0.25;
    let iters = 3;
    let sgd = StochasticGD::new(0.0, mu, iters);
    let result = sgd.optimize(&Line, &[0.0], &data, &targets);

    // The same descent, computed here from the closed form of the gradient
    // over row 1, (w * 2 - 4) * 2.
    let mut w: f64 = 0.0;
    for _ in 0..iters {
        w -= mu * mu * ((w * 2.0 - 4.0) * 2.0);
    }
    assert_eq!(w, 1.15625);
    assert_eq!(result.len(), 1);
    assert!((result[0] - w).abs() < 1e-12);
    assert_eq!(result, vec![1.15625]);
}

#[test]
fn stochastic_gd_forgets_the_momentum_between_calls() {
    let data = Matrix::new(3, 1, vec![1.0, 2.0, 3.0]);
    let targets = Matrix::new(3, 1, vec![2.0, 4.0, 6.0]);
    let sgd = StochasticGD::new(0.5, 0.125, 4);
    let first = sgd.optimize(&Line, &[0.5], &data, &targets);
    let second = sgd.optimize(&Line, &[0.5], &data, &targets);
    assert_eq!(first, second);
}

#[test]
fn stochastic_gd_leaves_its_inputs_unchanged() {
    let data = Matrix::new(3, 1, vec![1.0, 2.0, 3.0]);
    let targets = Matrix::new(3, 1, vec![2.0, 4.0, 6.0]);
    let start = vec![0.5];
    let sgd = StochasticGD::new(0.5, 0.125, 2);
    let _ = sgd.optimize(&Line, &start, &data, &targets);
    assert_eq!(start, vec![0.5]);
    assert_eq!(data.data(), &vec![1.0, 2.0, 3.0]);
    assert_eq!(targets.data(), &vec![2.0, 4.0, 6.0]);
    assert_eq!(data.rows(), 3);
    assert_eq!(targets.rows(), 3);
}

#[test]
fn stochastic_gd_approaches_the_fitted_slope() {
    // Every row lies on y = 2 x, so each row pulls the slope towards 2.
    let data = Matrix::new(3, 1, vec![1.0, 2.0, 3.0]);
    let targets = Matrix::new(3, 1, vec![2.0, 4.0, 6.0]);
    let sgd = StochasticGD::new(0.1, 0.1, 200);
    let result = sgd.optimize(&Line, &[0.0], &data, &targets);
    assert!((result[0] - 2.0).abs() < 1e-6);
}

#[test]
fn checked_optimize_turns_away_data_without_rows() {
    let data: Matrix<f64> = Matrix::new(0, 1, vec![]);
    let sgd = StochasticGD::new(0.5, 0.25, 3);
    let model = RowEcho::new();

    let no_targets: Matrix<f64> = Matrix::new(0, 1, vec![]);
    assert_eq!(sgd.checked_optimize(&model, &[1.0], &data, &no_targets), Err(OptimError::EmptyDataset));

    // Data without rows come before targets that do not match them.
    let targets = Matrix::new(2, 1, vec![1.0, 2.0]);
    assert_eq!(sgd.checked_optimize(&model, &[1.0], &data, &targets), Err(OptimError::EmptyDataset));
    assert!(model.seen.borrow().is_empty());
}

#[test]
fn checked_optimize_turns_away_targets_that_do_not_match() {
    let data = Matrix::new(2, 1, vec![2.0, 4.0]);
    let sgd = StochasticGD::new(0.5, 0.25, 3);
    let model = RowEcho::new();

    let fewer = Matrix::new(1, 1, vec![2.0]);
    assert_eq!(sgd.checked_optimize(&model, &[1.0], &data, &fewer), Err(OptimError::DimensionMismatch));
    let more = Matrix::new(3, 1, vec![2.0, 4.0, 6.0]);
    assert_eq!(sgd.checked_optimize(&model, &[1.0], &data, &more), Err(OptimError::DimensionMismatch));
    let none: Matrix<f64> = Matrix::new(0, 1, vec![]);
    assert_eq!(sgd.checked_optimize(&model, &[1.0], &data, &none), Err(OptimError::DimensionMismatch));
    assert!(model.seen.borrow().is_empty());
}

#[test]
fn checked_optimize_runs_on_a_well_shaped_batch() {
    let data = Matrix::new(2, 1, vec![2.0, 4.0]);
    let targets = Matrix::new(2, 1, vec![2.0, 4.0]);
    let sgd = StochasticGD::new(0.5, 0.25, 2);
    let checked = sgd.checked_optimize(&RowEcho::new(), &[0.0], &data, &targets);
    assert_eq!(checked, Ok(vec![-1.0625]));
    assert_eq!(checked, Ok(sgd.optimize(&RowEcho::new(), &[0.0], &data, &targets)));
}
