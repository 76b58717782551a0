//! Scalar adaptive optimizer.
//!
//! A black-box, derivative-free minimizer for one-dimensional objectives:
//! starting from an initial point it repeatedly proposes a new point, estimates
//! the local slope by finite differences, adapts its step size and direction
//! from the observed progress, and tracks the best point seen so far
//! independently of the current search position.
//!
//! All quantities are fixed-point numbers: an `i64` counts units of
//! `1 / SCALE`, so exact integer arithmetic stands in for real arithmetic and
//! every step of the search is fully specified.

pub mod fixed;
pub mod model;
pub mod objectives;
pub mod optimizer;
