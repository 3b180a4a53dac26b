//! Optimisation of a model's parameters.
//!
//! A model is [`Optimizable`] when it can report its cost and the gradient
//! of that cost at a parameter vector; an [`OptimAlgorithm`] turns a
//! starting vector into an improved one by asking the model for gradients.
//! An [`Evaluation`] records one such question and its answer, so that the
//! contract of an algorithm can say which questions a run asks, in which
//! order, and how the answers lead to the vector it returns.

pub mod grad_desc;
pub mod iterate;

use vstd::prelude::*;

verus! {

/// A model whose cost has a gradient.
///
/// The two specification functions describe an implementation to its
/// callers. Left as they are, they promise nothing beyond the length of the
/// gradient: any batch is accepted and any answer is possible. A model that
/// is verified restates them to say more. An implementation that is not
/// verified is taken at its word: the algorithms rely on one gradient entry
/// per parameter without looking.
pub trait Optimizable {
    /// The scalar type of parameters, costs and gradients.
    type Scalar;

    /// The observations a gradient is computed over.
    type Data;

    /// The values the observations are fitted to.
    type Target;

    /// Whether the model can be evaluated at a parameter vector of length
    /// `dim` over this batch.
    open spec fn accepts(&self, dim: nat, data: &Self::Data, targets: &Self::Target) -> bool {
        true
    }

    /// Whether `cost` and `grad` may be the answer at `params` over this
    /// batch. A model without hidden state allows one gradient per
    /// question.
    open spec fn yields(
        &self,
        params: Seq<Self::Scalar>,
        data: &Self::Data,
        targets: &Self::Target,
        cost: Self::Scalar,
        grad: Seq<Self::Scalar>,
    ) -> bool {
        true
    }

    /// The cost at `params` over the batch, and its gradient, one entry per
    /// parameter.
    fn compute_grad(&self, params: &[Self::Scalar], data: &Self::Data, targets: &Self::Target) -> (out: (
        Self::Scalar,
        Vec<Self::Scalar>,
    ))
        requires
            self.accepts(params@.len(), data, targets),
        ensures
            out.1@.len() == params@.len(),
            self.yields(params@, data, targets, out.0, out.1@),
    ;
}

/// Over this batch the model allows one gradient per question: it keeps no
/// state between calls and draws nothing at random.
pub open spec fn single_valued<M: Optimizable>(model: &M, data: &M::Data, targets: &M::Target) -> bool {
    forall|
        params: Seq<M::Scalar>,
        cost1: M::Scalar,
        grad1: Seq<M::Scalar>,
        cost2: M::Scalar,
        grad2: Seq<M::Scalar>,
    |
        #[trigger] model.yields(params, data, targets, cost1, grad1) && #[trigger] model.yields(
            params,
            data,
            targets,
            cost2,
            grad2,
        ) ==> grad1 == grad2
}

/// One call of [`Optimizable::compute_grad`]: what was asked and what came
/// back.
pub struct Evaluation<M: Optimizable> {
    /// The parameter vector the model was evaluated at.
    pub params: Seq<M::Scalar>,
    /// The observations it was evaluated over.
    pub data: M::Data,
    /// The targets it was evaluated over.
    pub targets: M::Target,
    /// The cost it reported.
    pub cost: M::Scalar,
    /// The gradient it reported.
    pub grad: Seq<M::Scalar>,
}

impl<M: Optimizable> Evaluation<M> {
    /// The answer is one that `model` may give to the question, with one
    /// gradient entry per parameter.
    pub open spec fn answered_by(self, model: &M) -> bool {
        &&& self.grad.len() == self.params.len()
        &&& model.yields(self.params, &self.data, &self.targets, self.cost, self.grad)
    }
}

/// An algorithm that improves a parameter vector for any model of type `M`.
pub trait OptimAlgorithm<M: Optimizable> {
    /// What the algorithm asks of its arguments before it runs.
    open spec fn admits(
        &self,
        model: &M,
        start: Seq<M::Scalar>,
        data: &M::Data,
        targets: &M::Target,
    ) -> bool {
        true
    }

    /// Runs the algorithm from `start` over the whole batch and returns the
    /// final parameter vector, which has the dimension of `start`.
    fn optimize(&self, model: &M, start: &[M::Scalar], data: &M::Data, targets: &M::Target) -> (result:
        Vec<M::Scalar>)
        requires
            self.admits(model, start@, data, targets),
        ensures
            result@.len() == start@.len(),
    ;
}

} // verus!
