//! The stepping-oracle interface: the shape the controller requires from an
//! interpreter.
//!
//! An oracle is built from program source (construction fails on a parse
//! error, reported as an opaque text value), advances one instruction per
//! [`SteppingOracle::step`] call, and is finally consumed by
//! [`SteppingOracle::finish`], which yields the terminal snapshot.  The
//! interpreter's instruction semantics are its own business: the controller
//! relies only on this shape.

use crate::io::custom_reader::CustomReader;
use crate::io::custom_writer::CustomWriter;
use vstd::prelude::*;

verus! {

/// The visible result of one interpreter step: the register file and the
/// current source line.
#[derive(Debug, Clone, PartialEq)]
pub struct Snapshot {
    pub registers: Vec<i64>,
    pub line: usize,
}

/// What remains of a finished session: the final register file, and the
/// error the run ended with, if it did not halt normally.  The error text
/// is opaque to the controller.
#[derive(Debug, Clone, PartialEq)]
pub struct TerminalState {
    pub registers: Vec<i64>,
    pub error: Option<String>,
}

/// A stepping interpreter the controller can drive.
///
/// The controller owns the input and output adapters for the lifetime of a
/// session and lends them to the oracle for each step; the oracle pulls
/// pending input bytes from the reader and pushes its output through the
/// writer.
pub trait SteppingOracle: Sized {
    /// Builds an oracle for `source`, or reports an opaque parse error.
    fn from_source(source: &str) -> Result<Self, String>;

    /// Advances one instruction: a snapshot on progress, or `None` once
    /// the program has halted or failed.
    fn step(&mut self, input: &mut CustomReader, output: &mut CustomWriter) -> Option<Snapshot>;

    /// Consumes the oracle, yielding the terminal snapshot.
    fn finish(self) -> TerminalState;
}

} // verus!
