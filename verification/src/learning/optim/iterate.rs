//! The descents over models that answer each question one way.
//!
//! The contracts of the two algorithms speak of the answers a model may
//! give. Where a model allows a single gradient per question, a run has a
//! single outcome; where that gradient is a known function of the position,
//! the outcome is the last of the positions that the update rule leads
//! through, written here as a recursion.

use crate::learning::optim::grad_desc::{
    descent_outcome, descent_position, descent_step, descent_trace, sgd_evaluations, sgd_momentum,
    sgd_outcome, sgd_position, sgd_row, sgd_trace,
};
use crate::learning::optim::{single_valued, Evaluation, Optimizable};
use crate::linalg::matrix::Matrix;
use crate::linalg::vector::{difference, scaled, sum};
use core::ops::{Add, Mul, Sub};
use vstd::prelude::*;

verus! {

/// Two runs of batch gradient descent over a single-valued model stand at
/// the same position after any number of evaluations.
proof fn lemma_descent_agree<M: Optimizable>(
    model: &M,
    alpha: M::Scalar,
    start: Seq<M::Scalar>,
    data: &M::Data,
    targets: &M::Target,
    a: Seq<Evaluation<M>>,
    b: Seq<Evaluation<M>>,
    k: int,
) where M::Scalar: Mul<Output = M::Scalar> + Sub<Output = M::Scalar>
    requires
        single_valued(model, data, targets),
        descent_trace(model, alpha, start, data, targets, a),
        descent_trace(model, alpha, start, data, targets, b),
        a.len() == b.len(),
        0 <= k <= a.len(),
    ensures
        descent_position(start, alpha, a, k) == descent_position(start, alpha, b, k),
    decreases k,
{
    if k > 0 {
        lemma_descent_agree(model, alpha, start, data, targets, a, b, k - 1);
        let ea = a[k - 1];
        let eb = b[k - 1];
        assert(ea.answered_by(model) && eb.answered_by(model));
        assert(ea.grad == eb.grad);
    }
}

/// Batch gradient descent adds no chance of its own: over a model that
/// allows one gradient per question, a starting vector has one outcome.
pub proof fn lemma_descent_deterministic<M: Optimizable>(
    model: &M,
    alpha: M::Scalar,
    iters: nat,
    start: Seq<M::Scalar>,
    data: &M::Data,
    targets: &M::Target,
    first: Seq<M::Scalar>,
    second: Seq<M::Scalar>,
) where M::Scalar: Mul<Output = M::Scalar> + Sub<Output = M::Scalar>
    requires
        single_valued(model, data, targets),
        descent_outcome(model, alpha, iters, start, data, targets, first),
        descent_outcome(model, alpha, iters, start, data, targets, second),
    ensures
        first == second,
{
    let a = choose|t: Seq<Evaluation<M>>|
        {
            &&& t.len() == iters
            &&& #[trigger] descent_trace(model, alpha, start, data, targets, t)
            &&& first == descent_position(start, alpha, t, iters as int)
        };
    let b = choose|t: Seq<Evaluation<M>>|
        {
            &&& t.len() == iters
            &&& #[trigger] descent_trace(model, alpha, start, data, targets, t)
            &&& second == descent_position(start, alpha, t, iters as int)
        };
    lemma_descent_agree(model, alpha, start, data, targets, a, b, iters as int);
}

/// The gradient the model gives over this batch at `w` is `gradient(w)`.
pub open spec fn gradient_over_batch<M: Optimizable>(
    model: &M,
    data: &M::Data,
    targets: &M::Target,
    gradient: spec_fn(Seq<M::Scalar>) -> Seq<M::Scalar>,
) -> bool {
    forall|params: Seq<M::Scalar>, cost: M::Scalar, grad: Seq<M::Scalar>| #[trigger]
        model.yields(params, data, targets, cost, grad) ==> grad == gradient(params)
}

/// The position after `n` steps of size `alpha` from `start`, when the
/// gradient at a position `w` is `gradient(w)`.
pub open spec fn descent_iterate<T: Mul<Output = T> + Sub<Output = T>>(
    gradient: spec_fn(Seq<T>) -> Seq<T>,
    alpha: T,
    start: Seq<T>,
    n: nat,
) -> Seq<T>
    decreases n,
{
    if n == 0 {
        start
    } else {
        let w = descent_iterate(gradient, alpha, start, (n - 1) as nat);
        descent_step(w, gradient(w), alpha)
    }
}

/// A run of batch gradient descent over a model whose gradient is
/// `gradient` stands at the iterate of that function after each evaluation.
proof fn lemma_descent_trace_iterates<M: Optimizable>(
    model: &M,
    alpha: M::Scalar,
    start: Seq<M::Scalar>,
    data: &M::Data,
    targets: &M::Target,
    gradient: spec_fn(Seq<M::Scalar>) -> Seq<M::Scalar>,
    trace: Seq<Evaluation<M>>,
    k: nat,
) where M::Scalar: Mul<Output = M::Scalar> + Sub<Output = M::Scalar>
    requires
        gradient_over_batch(model, data, targets, gradient),
        descent_trace(model, alpha, start, data, targets, trace),
        k <= trace.len(),
    ensures
        descent_position(start, alpha, trace, k as int) == descent_iterate(gradient, alpha, start, k),
    decreases k,
{
    if k > 0 {
        lemma_descent_trace_iterates(model, alpha, start, data, targets, gradient, trace, (k - 1) as nat);
        let e = trace[k - 1];
        assert(e.answered_by(model));
        assert(e.grad == gradient(e.params));
    }
}

/// Over a model whose gradient at `w` over this batch is `gradient(w)`,
/// batch gradient descent returns the position after `iters` steps, each
/// `w - gradient(w) * alpha`.
pub proof fn lemma_descent_follows_gradient<M: Optimizable>(
    model: &M,
    alpha: M::Scalar,
    iters: nat,
    start: Seq<M::Scalar>,
    data: &M::Data,
    targets: &M::Target,
    gradient: spec_fn(Seq<M::Scalar>) -> Seq<M::Scalar>,
    result: Seq<M::Scalar>,
) where M::Scalar: Mul<Output = M::Scalar> + Sub<Output = M::Scalar>
    requires
        gradient_over_batch(model, data, targets, gradient),
        descent_outcome(model, alpha, iters, start, data, targets, result),
    ensures
        result == descent_iterate(gradient, alpha, start, iters),
{
    let trace = choose|t: Seq<Evaluation<M>>|
        {
            &&& t.len() == iters
            &&& #[trigger] descent_trace(model, alpha, start, data, targets, t)
            &&& result == descent_position(start, alpha, t, iters as int)
        };
    lemma_descent_trace_iterates(model, alpha, start, data, targets, gradient, trace, iters);
}

/// The model allows one gradient per question and tells two well-formed
/// matrices apart by their rows and columns alone.
pub open spec fn single_valued_on_rows<T, M>(model: &M) -> bool where
    M: Optimizable<Scalar = T, Data = Matrix<T>, Target = Matrix<T>>,
 {
    forall|
        params: Seq<T>,
        data1: Matrix<T>,
        targets1: Matrix<T>,
        cost1: T,
        grad1: Seq<T>,
        data2: Matrix<T>,
        targets2: Matrix<T>,
        cost2: T,
        grad2: Seq<T>,
    |
        {
            &&& #[trigger] model.yields(params, &data1, &targets1, cost1, grad1)
            &&& #[trigger] model.yields(params, &data2, &targets2, cost2, grad2)
            &&& data1.wf() && data2.wf() && targets1.wf() && targets2.wf()
            &&& data1@ == data2@ && data1.spec_cols() == data2.spec_cols()
            &&& targets1@ == targets2@ && targets1.spec_cols() == targets2.spec_cols()
        } ==> grad1 == grad2
}

/// Two runs of stochastic gradient descent over such a model stand at the
/// same position, with the same momentum, after any number of evaluations.
proof fn lemma_sgd_agree<T, M>(
    model: &M,
    alpha: T,
    mu: T,
    start: Seq<T>,
    data: &Matrix<T>,
    targets: &Matrix<T>,
    a: Seq<Evaluation<M>>,
    b: Seq<Evaluation<M>>,
    k: int,
) where
    T: Add<Output = T> + Mul<Output = T> + Sub<Output = T>,
    M: Optimizable<Scalar = T, Data = Matrix<T>, Target = Matrix<T>>,

    requires
        single_valued_on_rows(model),
        sgd_trace(model, alpha, mu, start, data, targets, a),
        sgd_trace(model, alpha, mu, start, data, targets, b),
        a.len() == b.len(),
        0 <= k <= a.len(),
    ensures
        sgd_position(start, alpha, mu, a, k) == sgd_position(start, alpha, mu, b, k),
        k > 0 ==> sgd_momentum(alpha, mu, a, k - 1) == sgd_momentum(alpha, mu, b, k - 1),
    decreases k,
{
    if k > 0 {
        lemma_sgd_agree(model, alpha, mu, start, data, targets, a, b, k - 1);
        let ea = a[k - 1];
        let eb = b[k - 1];
        assert(ea.answered_by(model) && eb.answered_by(model));
        assert(ea.grad == eb.grad);
    }
}

/// Stochastic gradient descent adds no chance of its own: over a model that
/// allows one gradient per question, a starting vector has one outcome.
pub proof fn lemma_sgd_deterministic<T, M>(
    model: &M,
    alpha: T,
    mu: T,
    iters: nat,
    start: Seq<T>,
    data: &Matrix<T>,
    targets: &Matrix<T>,
    first: Seq<T>,
    second: Seq<T>,
) where
    T: Add<Output = T> + Mul<Output = T> + Sub<Output = T>,
    M: Optimizable<Scalar = T, Data = Matrix<T>, Target = Matrix<T>>,

    requires
        single_valued_on_rows(model),
        sgd_outcome(model, alpha, mu, iters, start, data, targets, first),
        sgd_outcome(model, alpha, mu, iters, start, data, targets, second),
    ensures
        first == second,
{
    let a = choose|t: Seq<Evaluation<M>>|
        {
            &&& t.len() == sgd_evaluations(iters, data@.len())
            &&& #[trigger] sgd_trace(model, alpha, mu, start, data, targets, t)
            &&& first == sgd_position(start, alpha, mu, t, t.len() as int)
        };
    let b = choose|t: Seq<Evaluation<M>>|
        {
            &&& t.len() == sgd_evaluations(iters, data@.len())
            &&& #[trigger] sgd_trace(model, alpha, mu, start, data, targets, t)
            &&& second == sgd_position(start, alpha, mu, t, t.len() as int)
        };
    lemma_sgd_agree(model, alpha, mu, start, data, targets, a, b, a.len() as int);
}

/// The position and the momentum term after evaluation `k` of a stochastic
/// descent over `rows` rows from `start`, when the gradient over row `r` at
/// a position `w` is `gradient(r, w)`.
pub open spec fn sgd_iterate<T: Add<Output = T> + Mul<Output = T> + Sub<Output = T>>(
    gradient: spec_fn(int, Seq<T>) -> Seq<T>,
    alpha: T,
    mu: T,
    start: Seq<T>,
    rows: nat,
    k: nat,
) -> (Seq<T>, Seq<T>)
    decreases k,
{
    if k == 0 {
        let delta = scaled(gradient(0, start), alpha);
        (difference(start, scaled(delta, mu)), delta)
    } else {
        let (w, before) = sgd_iterate(gradient, alpha, mu, start, rows, (k - 1) as nat);
        let delta = sum(scaled(gradient(sgd_row(k as int, rows), w), mu), scaled(before, alpha));
        (difference(w, scaled(delta, mu)), delta)
    }
}

/// The gradient the model gives over row `r` of the batch, taken as a matrix
/// of its own, at `w` is `gradient(r, w)`.
pub open spec fn gradient_by_row<T, M>(
    model: &M,
    data: &Matrix<T>,
    targets: &Matrix<T>,
    gradient: spec_fn(int, Seq<T>) -> Seq<T>,
) -> bool where M: Optimizable<Scalar = T, Data = Matrix<T>, Target = Matrix<T>> {
    forall|row_data: Matrix<T>, row_targets: Matrix<T>, r: int, params: Seq<T>, cost: T, grad: Seq<T>|
        {
            &&& #[trigger] row_data.is_row_of(*data, r)
            &&& #[trigger] row_targets.is_row_of(*targets, r)
            &&& #[trigger] model.yields(params, &row_data, &row_targets, cost, grad)
        } ==> grad == gradient(r, params)
}

/// A run of stochastic gradient descent over a model whose gradient by row
/// is `gradient` stands at the iterate of that function after each
/// evaluation.
proof fn lemma_sgd_trace_iterates<T, M>(
    model: &M,
    alpha: T,
    mu: T,
    start: Seq<T>,
    data: &Matrix<T>,
    targets: &Matrix<T>,
    gradient: spec_fn(int, Seq<T>) -> Seq<T>,
    trace: Seq<Evaluation<M>>,
    k: int,
) where
    T: Add<Output = T> + Mul<Output = T> + Sub<Output = T>,
    M: Optimizable<Scalar = T, Data = Matrix<T>, Target = Matrix<T>>,

    requires
        gradient_by_row(model, data, targets, gradient),
        sgd_trace(model, alpha, mu, start, data, targets, trace),
        0 <= k < trace.len(),
    ensures
        sgd_position(start, alpha, mu, trace, k + 1) == sgd_iterate(
            gradient,
            alpha,
            mu,
            start,
            data@.len(),
            k as nat,
        ).0,
        sgd_momentum(alpha, mu, trace, k) == sgd_iterate(
            gradient,
            alpha,
            mu,
            start,
            data@.len(),
            k as nat,
        ).1,
    decreases k,
{
    let e = trace[k];
    assert(e.answered_by(model));
    assert(e.grad == gradient(sgd_row(k, data@.len()), e.params));
    if k > 0 {
        lemma_sgd_trace_iterates(model, alpha, mu, start, data, targets, gradient, trace, k - 1);
    }
}

/// Over a model whose gradient over row `r` at `w` is `gradient(r, w)`,
/// stochastic gradient descent returns the position of the last iterate:
/// one step over row 0, then one step per later row and pass, each moving
/// the position against the momentum term scaled by `mu`.
pub proof fn lemma_sgd_follows_gradient<T, M>(
    model: &M,
    alpha: T,
    mu: T,
    iters: nat,
    start: Seq<T>,
    data: &Matrix<T>,
    targets: &Matrix<T>,
    gradient: spec_fn(int, Seq<T>) -> Seq<T>,
    result: Seq<T>,
) where
    T: Add<Output = T> + Mul<Output = T> + Sub<Output = T>,
    M: Optimizable<Scalar = T, Data = Matrix<T>, Target = Matrix<T>>,

    requires
        data@.len() >= 1,
        gradient_by_row(model, data, targets, gradient),
        sgd_outcome(model, alpha, mu, iters, start, data, targets, result),
    ensures
        result == sgd_iterate(
            gradient,
            alpha,
            mu,
            start,
            data@.len(),
            (sgd_evaluations(iters, data@.len()) - 1) as nat,
        ).0,
{
    let trace = choose|t: Seq<Evaluation<M>>|
        {
            &&& t.len() == sgd_evaluations(iters, data@.len())
            &&& #[trigger] sgd_trace(model, alpha, mu, start, data, targets, t)
            &&& result == sgd_position(start, alpha, mu, t, t.len() as int)
        };
    lemma_sgd_trace_iterates(model, alpha, mu, start, data, targets, gradient, trace, trace.len() - 1);
}

} // verus!
