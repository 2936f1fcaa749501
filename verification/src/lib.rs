//! A two-dimensional binary cellular automaton on a fixed square grid,
//! advanced one generation at a time under a soft wall-clock budget.
//!
//! The step is resumable: a call with a small budget computes part of the
//! next generation into a separate buffer and returns, and a later call
//! picks up where it left off. Every column of one step is proved to read
//! the same unmodified prior generation, so the completed generation is
//! independent of how many calls it took to build.

pub mod clock;
pub mod engine;
pub mod grid;
pub mod life;
pub mod rng;

pub use engine::Engine;
pub use grid::Grid;
