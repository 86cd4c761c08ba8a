//! Core text-editing library: buffers, positions, selections, undo history,
//! editor commands and the terminal emulator's screen model.

pub mod text;
pub mod buffer;
pub mod document;
pub mod editor;
pub mod undo;
pub mod commands;
pub mod events;
pub mod clipboard;
pub mod terminal;
pub mod syntax;
pub mod config;
pub mod io;
pub mod ui;

use vstd::prelude::*;

verus! {

/// The library's version.
pub const VERSION: &'static str = "0.1.0";

/// The library's name.
pub const NAME: &'static str = "lite_xl";

} // verus!
