//! Storage of values sampled on grids.

pub mod grid_values;
