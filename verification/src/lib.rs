//! Turns the textual log of a benchmark harness into an ordered record of
//! sections and measurements.

pub mod benchmark;
pub mod classifier;
pub mod error;
pub mod laws;
pub mod number;
pub mod text;
