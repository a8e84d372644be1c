//! Verified core of a library for computing and working with hydrogenic wavefunctions:
//! quantum numbers, integer special functions, the random number generator, the names of
//! atomic, hybrid and molecular orbitals, kinds of hybridization, and the reading of
//! molecular orbital data in Gaussian's cube format.

pub mod computation;
pub mod geometry;
pub mod monte_carlo;
pub mod numerics;
pub mod orbital;
pub mod utils;
