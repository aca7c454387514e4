//! A snake game on a torus: a cat chases a fish over a wrapping grid.
//!
//! The crate holds the simulation only: the grid, the input buffer, the tick
//! clock, the chain of segments and the round that ties them together. Every
//! executable function carries a contract that Verus proves, but for the one
//! call into `rand` that draws the cells for the food.

pub mod atlas;
pub mod cat;
pub mod control;
pub mod direction;
pub mod food;
pub mod game;
pub mod grid;
pub mod level;
pub mod ticktimer;
