//! Numerical routines on integers: factorials, binomial coefficients and random numbers, and
//! the error and wrapper types of the numerical methods.

pub mod double_factorial;
pub mod random;
pub mod root_finding;
pub mod special;
pub mod statistics;
