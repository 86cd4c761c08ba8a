//! The terminal's backend: the shell it runs and the events it reports.

pub mod process;
pub mod pty;

use vstd::prelude::*;

verus! {

/// Events of a terminal backend.
#[derive(Debug, Clone, PartialEq, Eq)]
pub enum TerminalEvent {
    /// Data from the terminal process
    Data(Vec<u8>),
    /// The process ended, with its exit code if it has one
    Exit(Option<i32>),
    /// An error of the backend
    Error(String),
    /// The terminal was resized
    Resize { rows: u16, cols: u16 },
}

} // verus!
