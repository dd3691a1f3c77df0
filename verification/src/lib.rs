//! A bounded random walk on a small fixed-size grid.
//!
//! A single agent starts on a seeded, randomly filled grid, moves for a fixed
//! number of turns, collects the point value of every cell it enters, and the
//! state after each turn can be rendered as text. The whole simulation is a
//! deterministic function of the seed.

pub mod rng;
pub mod state;
pub mod render;
pub mod sim;
