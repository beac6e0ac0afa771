//! Conway's Game of Life on a fixed, non-wrapping grid, with the state
//! machine of an interactive session that drives it.

pub mod display;
pub mod grid;
pub mod patterns;
pub mod session;
