//! The actions of the terminal's escape sequences.

pub mod sequences;
