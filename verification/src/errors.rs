//! The failure taxonomy of the parsers.
//!
//! All parse failures are unrecoverable for a run: a caller that feeds a
//! batch of lines stops at the first failing line. The simulator itself
//! never fails. `UnknownHeading` and `UnknownCommand` are kept as explicit
//! impossible-state faults: the sequential parser constrains the alphabet
//! before mapping letters, so neither is ever produced by this crate.

use vstd::prelude::*;

verus! {

#[derive(Debug, Clone, Copy, PartialEq, Eq, Structural)]
pub enum ParseError {
    /// The grid line does not yield exactly two integers.
    MalformedGrid,
    /// The robot line does not match the required pattern, or a
    /// coordinate in it does not fit the coordinate type.
    MalformedRobot,
    /// A heading letter outside {N, E, S, W}.
    UnknownHeading,
    /// A command letter outside {L, R, F}.
    UnknownCommand,
}

} // verus!
