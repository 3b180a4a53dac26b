//! Gradient descent.
//!
//! [`GradientDesc`] takes a fixed number of steps, each against the gradient
//! over the whole batch. [`StochasticGD`] sweeps the batch row by row and
//! smooths the steps with a momentum term.
//!
//! Neither algorithm looks at the cost or stops early: the number of
//! evaluations depends on the configuration and the number of rows alone.
//!
//! What a run returns is stated through its trace, the sequence of
//! [`Evaluation`]s it is made of: how many there are, which part of the batch
//! each is over, and how each position follows from the answers before it.

use crate::learning::optim::{Evaluation, OptimAlgorithm, Optimizable};
use crate::linalg::matrix::Matrix;
use crate::linalg::vector::{difference, scaled, sum, Vector};
use core::ops::{Add, Div, Mul, Sub};
use vstd::arithmetic::div_mod::{lemma_mod_multiples_vanish, lemma_mod_pos_bound, lemma_small_mod};
use vstd::prelude::*;
use vstd::slice::slice_to_vec;
use vstd::std_specs::convert::FromSpec;
use vstd::std_specs::ops::{AddSpec, DivSpec, MulSpec, SubSpec};

verus! {

/// The vector one step of size `alpha` against `grad` leads to from `w`:
/// `w - grad * alpha`, entry by entry.
pub open spec fn descent_step<T: Mul<Output = T> + Sub<Output = T>>(
    w: Seq<T>,
    grad: Seq<T>,
    alpha: T,
) -> Seq<T> {
    difference(w, scaled(grad, alpha))
}

/// Where a descent from `start` stands after the first `k` evaluations of
/// `trace`.
pub open spec fn descent_position<M: Optimizable>(
    start: Seq<M::Scalar>,
    alpha: M::Scalar,
    trace: Seq<Evaluation<M>>,
    k: int,
) -> Seq<M::Scalar> where M::Scalar: Mul<Output = M::Scalar> + Sub<Output = M::Scalar> {
    if k <= 0 {
        start
    } else {
        descent_step(trace[k - 1].params, trace[k - 1].grad, alpha)
    }
}

/// `trace` is a run of batch gradient descent: every evaluation is over the
/// whole batch, at the position the evaluations before it led to, and is
/// answered by the model.
pub open spec fn descent_trace<M: Optimizable>(
    model: &M,
    alpha: M::Scalar,
    start: Seq<M::Scalar>,
    data: &M::Data,
    targets: &M::Target,
    trace: Seq<Evaluation<M>>,
) -> bool where M::Scalar: Mul<Output = M::Scalar> + Sub<Output = M::Scalar> {
    forall|k: int|
        0 <= k < trace.len() ==> {
            &&& (#[trigger] trace[k]).data == *data
            &&& trace[k].targets == *targets
            &&& trace[k].params == descent_position(start, alpha, trace, k)
            &&& trace[k].answered_by(model)
        }
}

/// `result` is what batch gradient descent with step size `alpha` returns
/// after exactly `iters` evaluations.
pub open spec fn descent_outcome<M: Optimizable>(
    model: &M,
    alpha: M::Scalar,
    iters: nat,
    start: Seq<M::Scalar>,
    data: &M::Data,
    targets: &M::Target,
    result: Seq<M::Scalar>,
) -> bool where M::Scalar: Mul<Output = M::Scalar> + Sub<Output = M::Scalar> {
    exists|trace: Seq<Evaluation<M>>|
        {
            &&& trace.len() == iters
            &&& #[trigger] descent_trace(model, alpha, start, data, targets, trace)
            &&& result == descent_position(start, alpha, trace, iters as int)
        }
}

/// Batch gradient descent.
pub struct GradientDesc<T> {
    /// The step size.
    pub alpha: T,
    /// The number of steps to take.
    pub iters: usize,
}

impl<T> GradientDesc<T> {
    /// A gradient descent with the given step size and number of steps.
    pub fn new(alpha: T, iters: usize) -> (gd: GradientDesc<T>)
        ensures
            gd.alpha == alpha,
            gd.iters == iters,
    {
        GradientDesc { alpha, iters }
    }
}

impl<T: From<u8> + Div<Output = T>> GradientDesc<T> {
    /// The preset configuration: a step size of three tenths and 100 steps.
    pub fn default() -> (gd: GradientDesc<T>)
        requires
            forall|a: T, b: T| #[trigger] a.div_req(b),
        ensures
            gd.iters == 100,
            T::obeys_from_spec() && T::obeys_div_spec() ==> gd.alpha == T::from_spec(3u8).div_spec(
                T::from_spec(10u8),
            ),
    {
        GradientDesc { alpha: T::from(3u8) / T::from(10u8), iters: 100 }
    }
}

impl<T, M> OptimAlgorithm<M> for GradientDesc<T> where
    T: Copy + Mul<Output = T> + Sub<Output = T>,
    M: Optimizable<Scalar = T>,
 {
    /// The model accepts the batch at the dimension of `start`, and any two
    /// scalars may be multiplied and subtracted.
    open spec fn admits(&self, model: &M, start: Seq<T>, data: &M::Data, targets: &M::Target) -> bool {
        &&& model.accepts(start.len(), data, targets)
        &&& forall|a: T, b: T| #[trigger] a.mul_req(b)
        &&& forall|a: T, b: T| #[trigger] a.sub_req(b)
    }

    /// Takes `self.iters` steps from `start`, each against the gradient over
    /// the whole batch at the current position.
    fn optimize(&self, model: &M, start: &[T], data: &M::Data, targets: &M::Target) -> (result: Vec<T>)
        ensures
            self.iters == 0 ==> result@ == start@,
            T::obeys_mul_spec() && T::obeys_sub_spec() ==> descent_outcome(
                model,
                self.alpha,
                self.iters as nat,
                start@,
                data,
                targets,
                result@,
            ),
    {
        let mut optimizing_val = Vector::new(slice_to_vec(start));
        let ghost mut trace: Seq<Evaluation<M>> = Seq::empty();
        let mut i: usize = 0;
        while i < self.iters
            invariant
                i <= self.iters,
                optimizing_val@.len() == start@.len(),
                model.accepts(start@.len(), data, targets),
                forall|a: T, b: T| #[trigger] a.mul_req(b),
                forall|a: T, b: T| #[trigger] a.sub_req(b),
                i == 0 ==> optimizing_val@ == start@,
                trace.len() == i,
                T::obeys_mul_spec() && T::obeys_sub_spec() ==> {
                    &&& descent_trace(model, self.alpha, start@, data, targets, trace)
                    &&& optimizing_val@ == descent_position(start@, self.alpha, trace, i as int)
                },
            decreases self.iters - i,
        {
            let out = model.compute_grad(optimizing_val.data().as_slice(), data, targets);
            let grad = Vector::new(out.1);
            let step = grad.scale(self.alpha);
            let next = optimizing_val.minus(&step);
            proof {
                let before = trace;
                trace = trace.push(
                    Evaluation {
                        params: optimizing_val@,
                        data: *data,
                        targets: *targets,
                        cost: out.0,
                        grad: grad@,
                    },
                );
                if T::obeys_mul_spec() && T::obeys_sub_spec() {
                    assert forall|k: int| 0 <= k < trace.len() implies {
                        &&& (#[trigger] trace[k]).data == *data
                        &&& trace[k].targets == *targets
                        &&& trace[k].params == descent_position(start@, self.alpha, trace, k)
                        &&& trace[k].answered_by(model)
                    } by {
                        if k < i {
                            assert(trace[k] == before[k]);
                        }
                    }
                }
            }
            optimizing_val = next;
            i += 1;
        }
        optimizing_val.into_vec()
    }
}

/// The number of evaluations a stochastic descent of `iters` passes makes
/// over `rows` rows, of which there is at least one: one for the first row,
/// then one for each other row in each pass.
pub open spec fn sgd_evaluations(iters: nat, rows: nat) -> nat {
    (1 + iters * (rows - 1)) as nat
}

/// The row that evaluation `k` of a stochastic descent over `rows` rows
/// looks at: row 0 once, then rows 1 to `rows - 1` in ascending order, again
/// and again. Only a batch with a second row has an evaluation after the
/// first.
pub open spec fn sgd_row(k: int, rows: nat) -> int {
    if k <= 0 {
        0
    } else {
        1 + (k - 1) % (rows - 1)
    }
}

/// The momentum term after evaluation `k` of `trace`. The first gradient
/// enters scaled by `alpha`; each later one enters scaled by `mu`, on top of
/// the term before it scaled by `alpha`.
pub open spec fn sgd_momentum<M: Optimizable>(
    alpha: M::Scalar,
    mu: M::Scalar,
    trace: Seq<Evaluation<M>>,
    k: int,
) -> Seq<M::Scalar> where
    M::Scalar: Add<Output = M::Scalar> + Mul<Output = M::Scalar> + Sub<Output = M::Scalar>,

    decreases k,
{
    if k <= 0 {
        scaled(trace[0].grad, alpha)
    } else {
        sum(scaled(trace[k].grad, mu), scaled(sgd_momentum(alpha, mu, trace, k - 1), alpha))
    }
}

/// Where a stochastic descent from `start` stands after the first `k`
/// evaluations of `trace`: each evaluation moves the position against its
/// momentum term scaled by `mu`.
pub open spec fn sgd_position<M: Optimizable>(
    start: Seq<M::Scalar>,
    alpha: M::Scalar,
    mu: M::Scalar,
    trace: Seq<Evaluation<M>>,
    k: int,
) -> Seq<M::Scalar> where
    M::Scalar: Add<Output = M::Scalar> + Mul<Output = M::Scalar> + Sub<Output = M::Scalar>,
 {
    if k <= 0 {
        start
    } else {
        difference(trace[k - 1].params, scaled(sgd_momentum(alpha, mu, trace, k - 1), mu))
    }
}

/// `trace` is a run of stochastic gradient descent: evaluation `k` is over
/// row `sgd_row(k, ..)` of the data and of the targets alone, at the position
/// the evaluations before it led to, and is answered by the model.
pub open spec fn sgd_trace<T, M>(
    model: &M,
    alpha: T,
    mu: T,
    start: Seq<T>,
    data: &Matrix<T>,
    targets: &Matrix<T>,
    trace: Seq<Evaluation<M>>,
) -> bool where
    T: Add<Output = T> + Mul<Output = T> + Sub<Output = T>,
    M: Optimizable<Scalar = T, Data = Matrix<T>, Target = Matrix<T>>,
 {
    forall|k: int|
        0 <= k < trace.len() ==> {
            &&& (#[trigger] trace[k]).data.is_row_of(*data, sgd_row(k, data@.len()))
            &&& trace[k].targets.is_row_of(*targets, sgd_row(k, data@.len()))
            &&& trace[k].params == sgd_position(start, alpha, mu, trace, k)
            &&& trace[k].answered_by(model)
        }
}

/// `result` is what stochastic gradient descent with momentum decay `alpha`
/// and step size `mu` returns after `iters` passes: the position after
/// exactly `sgd_evaluations(iters, ..)` evaluations.
pub open spec fn sgd_outcome<T, M>(
    model: &M,
    alpha: T,
    mu: T,
    iters: nat,
    start: Seq<T>,
    data: &Matrix<T>,
    targets: &Matrix<T>,
    result: Seq<T>,
) -> bool where
    T: Add<Output = T> + Mul<Output = T> + Sub<Output = T>,
    M: Optimizable<Scalar = T, Data = Matrix<T>, Target = Matrix<T>>,
 {
    exists|trace: Seq<Evaluation<M>>|
        {
            &&& trace.len() == sgd_evaluations(iters, data@.len())
            &&& #[trigger] sgd_trace(model, alpha, mu, start, data, targets, trace)
            &&& result == sgd_position(start, alpha, mu, trace, trace.len() as int)
        }
}

/// Within pass `pass`, counted from 0, the sweep looks at row `i` in
/// evaluation `1 + pass * (rows - 1) + (i - 1)`: every pass visits rows 1 to
/// `rows - 1` in ascending order, and all of them fall within the
/// evaluations of the run.
pub proof fn lemma_sgd_sweep(iters: nat, rows: nat, pass: nat, i: nat)
    requires
        pass < iters,
        1 <= i < rows,
    ensures
        0 < 1 + pass * (rows - 1) + (i - 1) < sgd_evaluations(iters, rows),
        sgd_row(1 + pass * (rows - 1) + (i - 1), rows) == i,
{
    let m = rows - 1;
    assert(0 <= pass * m && (pass + 1) * m <= iters * m && (pass + 1) * m == pass * m + m
        && m * pass == pass * m) by (nonlinear_arith)
        requires
            0 < m,
            0 <= pass < iters,
    ;
    lemma_mod_multiples_vanish(pass as int, i - 1, m);
    lemma_small_mod((i - 1) as nat, m as nat);
}

/// Row 0 is looked at by the first evaluation and by no other, and no
/// evaluation looks past the last row.
pub proof fn lemma_sgd_first_row_once(iters: nat, rows: nat, k: int)
    requires
        rows >= 1,
        0 <= k < sgd_evaluations(iters, rows),
    ensures
        0 <= sgd_row(k, rows) < rows,
        sgd_row(k, rows) == 0 <==> k == 0,
{
    if k > 0 {
        assert(rows >= 2) by (nonlinear_arith)
            requires
                rows >= 1,
                0 < k < 1 + iters * (rows - 1),
        ;
        lemma_mod_pos_bound(k - 1, rows - 1);
    }
}

/// The momentum term after evaluation `k` depends on the evaluations up to
/// `k` alone.
proof fn lemma_momentum_prefix<M: Optimizable>(
    alpha: M::Scalar,
    mu: M::Scalar,
    a: Seq<Evaluation<M>>,
    b: Seq<Evaluation<M>>,
    k: int,
) where M::Scalar: Add<Output = M::Scalar> + Mul<Output = M::Scalar> + Sub<Output = M::Scalar>
    requires
        0 <= k < a.len() <= b.len(),
        forall|j: int| 0 <= j <= k ==> a[j].grad == b[j].grad,
    ensures
        sgd_momentum(alpha, mu, a, k) == sgd_momentum(alpha, mu, b, k),
    decreases k,
{
    if k > 0 {
        lemma_momentum_prefix(alpha, mu, a, b, k - 1);
    }
}

/// Stochastic gradient descent with momentum.
pub struct StochasticGD<T> {
    /// The decay of the momentum term.
    pub alpha: T,
    /// The step size, applied to each gradient and again to each step.
    pub mu: T,
    /// The number of passes over the data.
    pub iters: usize,
}

impl<T> StochasticGD<T> {
    /// A stochastic gradient descent with the given momentum decay, step
    /// size and number of passes.
    pub fn new(alpha: T, mu: T, iters: usize) -> (sgd: StochasticGD<T>)
        ensures
            sgd.alpha == alpha,
            sgd.mu == mu,
            sgd.iters == iters,
    {
        StochasticGD { alpha, mu, iters }
    }
}

impl<T: From<u8> + Div<Output = T>> StochasticGD<T> {
    /// The preset configuration: a momentum decay of one tenth, a step size
    /// of one tenth and 20 passes.
    pub fn default() -> (sgd: StochasticGD<T>)
        requires
            forall|a: T, b: T| #[trigger] a.div_req(b),
        ensures
            sgd.iters == 20,
            T::obeys_from_spec() && T::obeys_div_spec() ==> {
                &&& sgd.alpha == T::from_spec(1u8).div_spec(T::from_spec(10u8))
                &&& sgd.mu == T::from_spec(1u8).div_spec(T::from_spec(10u8))
            },
    {
        StochasticGD {
            alpha: T::from(1u8) / T::from(10u8),
            mu: T::from(1u8) / T::from(10u8),
            iters: 20,
        }
    }
}

/// Why a batch is turned away before a run.
#[derive(Clone, Copy, Debug, PartialEq, Eq)]
pub enum OptimError {
    /// The data have no row, so there is no first row to start from.
    EmptyDataset,
    /// The targets do not have one row for each row of the data.
    DimensionMismatch,
}

/// There is a first row, and the targets have a row for each row of the
/// data.
pub open spec fn well_shaped<T>(data: &Matrix<T>, targets: &Matrix<T>) -> bool {
    &&& data@.len() >= 1
    &&& targets@.len() == data@.len()
}

impl<T: Add<Output = T> + Mul<Output = T> + Sub<Output = T>> StochasticGD<T> {
    /// The model accepts every pair of rows the run will look at, at the
    /// dimension of `start`, and any two scalars may be added, multiplied
    /// and subtracted.
    pub open spec fn supports<M>(&self, model: &M, start: Seq<T>, data: &Matrix<T>, targets: &Matrix<T>) -> bool
        where M: Optimizable<Scalar = T, Data = Matrix<T>, Target = Matrix<T>> {
        &&& forall|row_data: Matrix<T>, row_targets: Matrix<T>, r: int|
            0 <= r < data@.len() && (r == 0 || self.iters > 0) && #[trigger] row_data.is_row_of(*data, r)
                && #[trigger] row_targets.is_row_of(*targets, r) ==> model.accepts(
                start.len(),
                &row_data,
                &row_targets,
            )
        &&& forall|a: T, b: T| #[trigger] a.add_req(b)
        &&& forall|a: T, b: T| #[trigger] a.mul_req(b)
        &&& forall|a: T, b: T| #[trigger] a.sub_req(b)
    }
}

impl<T: Copy + Add<Output = T> + Mul<Output = T> + Sub<Output = T>> StochasticGD<T> {
    /// Looks at the shape of the batch first and runs
    /// [`optimize`](OptimAlgorithm::optimize) only on one that is well
    /// shaped. Data without a row are turned away before targets that do not
    /// match them.
    pub fn checked_optimize<M>(&self, model: &M, start: &[T], data: &Matrix<T>, targets: &Matrix<T>) -> (result:
        Result<Vec<T>, OptimError>) where M: Optimizable<Scalar = T, Data = Matrix<T>, Target = Matrix<T>>
        requires
            self.supports(model, start@, data, targets),
        ensures
            data@.len() == 0 ==> result == Err::<Vec<T>, OptimError>(OptimError::EmptyDataset),
            data@.len() > 0 && targets@.len() != data@.len() ==> result == Err::<Vec<T>, OptimError>(
                OptimError::DimensionMismatch,
            ),
            well_shaped(data, targets) ==> {
                &&& result matches Ok(v)
                &&& v@.len() == start@.len()
                &&& T::obeys_add_spec() && T::obeys_mul_spec() && T::obeys_sub_spec() ==> sgd_outcome(
                    model,
                    self.alpha,
                    self.mu,
                    self.iters as nat,
                    start@,
                    data,
                    targets,
                    v@,
                )
            },
    {
        if data.rows() == 0 {
            Err(OptimError::EmptyDataset)
        } else if targets.rows() != data.rows() {
            Err(OptimError::DimensionMismatch)
        } else {
            Ok(self.optimize(model, start, data, targets))
        }
    }
}

/// Row `i` of `m` as a matrix of its own.
fn select_row<T: Copy>(m: &Matrix<T>, i: usize) -> (row: Matrix<T>)
    requires
        i < m@.len(),
    ensures
        row.is_row_of(*m, i as int),
{
    let picks = [i];
    let row = m.select_rows(picks.as_slice());
    assert(row@ =~= seq![m@[i as int]]);
    row
}

impl<T, M> OptimAlgorithm<M> for StochasticGD<T> where
    T: Copy + Add<Output = T> + Mul<Output = T> + Sub<Output = T>,
    M: Optimizable<Scalar = T, Data = Matrix<T>, Target = Matrix<T>>,
 {
    /// The batch is well shaped, and the model and the scalars support a run
    /// over it from `start`.
    open spec fn admits(&self, model: &M, start: Seq<T>, data: &Matrix<T>, targets: &Matrix<T>) -> bool {
        &&& well_shaped(data, targets)
        &&& self.supports(model, start, data, targets)
    }

    /// Takes a first step from `start` against the gradient over row 0, then
    /// makes `self.iters` passes over rows 1 to the last, in ascending
    /// order, with one step per row. The momentum term lives for this call
    /// alone and is carried from row to row and from pass to pass.
    fn optimize(&self, model: &M, start: &[T], data: &Matrix<T>, targets: &Matrix<T>) -> (result: Vec<T>)
        ensures
            T::obeys_add_spec() && T::obeys_mul_spec() && T::obeys_sub_spec() ==> sgd_outcome(
                model,
                self.alpha,
                self.mu,
                self.iters as nat,
                start@,
                data,
                targets,
                result@,
            ),
    {
        let rows: usize = data.rows();
        let ghost exact = T::obeys_add_spec() && T::obeys_mul_spec() && T::obeys_sub_spec();

        let first_data = select_row(data, 0);
        let first_targets = select_row(targets, 0);
        let out = model.compute_grad(start, &first_data, &first_targets);
        let grad = Vector::new(out.1);
        let mut delta_w = grad.scale(self.alpha);
        let mut optimizing_val = Vector::new(slice_to_vec(start)).minus(&delta_w.scale(self.mu));
        let ghost mut trace: Seq<Evaluation<M>> = seq![
            Evaluation {
                params: start@,
                data: first_data,
                targets: first_targets,
                cost: out.0,
                grad: grad@,
            },
        ];

        let mut pass: usize = 0;
        while pass < self.iters
            invariant
                self.admits(model, start@, data, targets),
                rows == data@.len(),
                exact == (T::obeys_add_spec() && T::obeys_mul_spec() && T::obeys_sub_spec()),
                pass <= self.iters,
                optimizing_val@.len() == start@.len(),
                delta_w@.len() == start@.len(),
                trace.len() == 1 + pass * (rows - 1),
                exact ==> {
                    &&& sgd_trace(model, self.alpha, self.mu, start@, data, targets, trace)
                    &&& delta_w@ == sgd_momentum(self.alpha, self.mu, trace, trace.len() - 1)
                    &&& optimizing_val@ == sgd_position(
                        start@,
                        self.alpha,
                        self.mu,
                        trace,
                        trace.len() as int,
                    )
                },
            decreases self.iters - pass,
        {
            let mut i: usize = 1;
            while i < rows
                invariant
                    self.admits(model, start@, data, targets),
                    rows == data@.len(),
                    exact == (T::obeys_add_spec() && T::obeys_mul_spec() && T::obeys_sub_spec()),
                    pass < self.iters,
                    1 <= i <= rows,
                    optimizing_val@.len() == start@.len(),
                    delta_w@.len() == start@.len(),
                    trace.len() == 1 + pass * (rows - 1) + (i - 1),
                    exact ==> {
                        &&& sgd_trace(model, self.alpha, self.mu, start@, data, targets, trace)
                        &&& delta_w@ == sgd_momentum(self.alpha, self.mu, trace, trace.len() - 1)
                        &&& optimizing_val@ == sgd_position(
                            start@,
                            self.alpha,
                            self.mu,
                            trace,
                            trace.len() as int,
                        )
                    },
                decreases rows - i,
            {
                let row_data = select_row(data, i);
                let row_targets = select_row(targets, i);
                let out = model.compute_grad(optimizing_val.data().as_slice(), &row_data, &row_targets);
                let grad = Vector::new(out.1);
                let next_delta = grad.scale(self.mu).plus(&delta_w.scale(self.alpha));
                let next_val = optimizing_val.minus(&next_delta.scale(self.mu));
                proof {
                    let before = trace;
                    let n = before.len() as int;
                    trace = before.push(
                        Evaluation {
                            params: optimizing_val@,
                            data: row_data,
                            targets: row_targets,
                            cost: out.0,
                            grad: grad@,
                        },
                    );
                    lemma_sgd_sweep(self.iters as nat, rows as nat, pass as nat, i as nat);
                    if exact {
                        lemma_momentum_prefix(self.alpha, self.mu, before, trace, n - 1);
                        assert forall|k: int| 0 <= k < trace.len() implies {
                            &&& (#[trigger] trace[k]).data.is_row_of(*data, sgd_row(k, data@.len()))
                            &&& trace[k].targets.is_row_of(*targets, sgd_row(k, data@.len()))
                            &&& trace[k].params == sgd_position(start@, self.alpha, self.mu, trace, k)
                            &&& trace[k].answered_by(model)
                        } by {
                            if k < n {
                                if k > 0 {
                                    lemma_momentum_prefix(self.alpha, self.mu, before, trace, k - 1);
                                }
                            }
                        }
                    }
                }
                delta_w = next_delta;
                optimizing_val = next_val;
                i += 1;
            }
            proof {
                assert(1 + pass * (rows - 1) + (rows - 1) == 1 + (pass + 1) * (rows - 1))
                    by (nonlinear_arith);
            }
            pass += 1;
        }
        optimizing_val.into_vec()
    }
}

} // verus!
