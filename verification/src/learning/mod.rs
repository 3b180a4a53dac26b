//! Learning algorithms.

pub mod optim;
