//! The observer-visible state that the controller publishes, and the inputs
//! it reads from the UI.
//!
//! The controller writes `registers`, `current_debug_line`, `read_only` and
//! `error`; the UI renders them.  The UI writes `breakpoints` and `stdin`;
//! the controller only reads them (the breakpoint set once per continuous
//! step, the stdin text once when a session starts).

use vstd::prelude::*;

verus! {

/// The error shown on the output console: either the interpreter failed to
/// parse the program, or the run ended with a runtime error.  Both payloads
/// are opaque interpreter-supplied text.
#[derive(Debug, Clone, PartialEq)]
pub enum OutputComponentErrors {
    InterpretError(String),
    ParseError(String),
}

/// The shared UI state.
#[derive(Debug)]
pub struct Store {
    pub registers: Vec<i64>,
    pub read_only: bool,
    pub current_debug_line: usize,
    pub error: Option<OutputComponentErrors>,
    pub breakpoints: Vec<usize>,
    pub stdin: String,
}

impl Store {
    /// The published register file.
    pub open spec fn regs(&self) -> Seq<i64> {
        self.registers@
    }

    /// A store with no registers, no breakpoints, empty stdin, line 0, no
    /// error, and the editor writable.
    pub fn new() -> (r: Store)
        ensures
            r.regs() == Seq::<i64>::empty(),
            !r.read_only,
            r.current_debug_line == 0,
            r.error is None,
            r.breakpoints@ == Seq::<usize>::empty(),
            r.stdin@ == Seq::<char>::empty(),
    {
        Store {
            registers: Vec::new(),
            read_only: false,
            current_debug_line: 0,
            error: None,
            breakpoints: Vec::new(),
            stdin: String::new(),
        }
    }

    pub fn get_registers(&self) -> (r: &Vec<i64>)
        ensures
            r@ == self.regs(),
    {
        &self.registers
    }

    pub fn set_registers(&mut self, registers: Vec<i64>)
        ensures
            final(self).regs() == registers@,
            final(self).read_only == old(self).read_only,
            final(self).current_debug_line == old(self).current_debug_line,
            final(self).error == old(self).error,
            final(self).breakpoints == old(self).breakpoints,
            final(self).stdin == old(self).stdin,
    {
        self.registers = registers;
    }

    /// Whether `line` carries a breakpoint.
    pub fn has_breakpoint(&self, line: usize) -> (r: bool)
        ensures
            r == self.breakpoints@.contains(line),
    {
        let n = self.breakpoints.len();
        let mut i: usize = 0;
        while i < n
            invariant
                i <= n,
                n == self.breakpoints@.len(),
                forall|j: int| 0 <= j < i ==> self.breakpoints@[j] != line,
            decreases n - i,
        {
            if self.breakpoints[i] == line {
                return true;
            }
            i += 1;
        }
        false
    }
}

} // verus!
