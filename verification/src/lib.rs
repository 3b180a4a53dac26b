//! Gradient-based optimisation of parametric models.
//!
//! [`learning::optim`] holds the capability a model offers (a cost and its
//! gradient at a parameter vector) and the algorithms that descend along
//! that gradient; [`linalg`] holds the dense containers they compute on.
//!
//! Everything is generic over the scalar type, whose `+`, `-` and `*` come
//! from the standard operator traits. Contracts speak of that arithmetic
//! through the specifications the operator traits carry: what a function
//! returns is pinned down for every scalar whose operators obey them, and
//! its length for every scalar.

pub mod learning;
pub mod linalg;
