//! Simulation of robots moving on a bounded rectangular grid.
//!
//! The library parses a textual grid description and robot records,
//! replays each robot's command sequence against the grid bounds, and
//! renders the resulting outcome in a fixed textual form.

pub mod errors;
pub mod grid;
pub mod outcome;
pub mod robot;
pub mod sim;
pub mod text;
pub mod vocab;
