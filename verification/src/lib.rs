//! A verified debug-execution controller for a small register-machine IDE.
//!
//! The crate centres on [`code_runner::CodeRunner`], a state machine that
//! drives a stepping interpreter (an implementation of
//! [`oracle::SteppingOracle`]) under user control: run, single-step,
//! continuous run to a breakpoint, and stop.  The host environment is
//! single threaded and cooperative, so continuous running is realised as a
//! chain of self-dispatched continuation messages with an artificial delay
//! between steps; the controller returns an [`code_runner::Effect`] telling
//! the host which message to feed back and whether to delay first.
//!
//! Synchronous byte I/O for the interpreter is bridged by two adapters:
//! [`io::custom_reader::CustomReader`] turns a user-supplied input string
//! into a pull-based byte stream that never blocks, and
//! [`io::custom_writer::CustomWriter`] records every write as a decoded
//! text notification for the UI.
//!
//! [`mini_ram::MiniRam`] is a small, fully verified oracle implementation
//! (programs of `read`, `write` and `halt` instructions) used to exercise
//! the controller end to end.

pub mod code_runner;
pub mod io;
pub mod mini_ram;
pub mod numfmt;
pub mod oracle;
pub mod store;

mod private;
