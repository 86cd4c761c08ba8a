//! The parts of the user interface's state that hold no drawing: the
//! terminal panel's docking position and the terminal view's cursor.

pub mod editor_view;
pub mod terminal_canvas;
pub mod terminal_tabs;

use vstd::prelude::*;

verus! {

/// Where the terminal panel is docked.
#[derive(Debug, Clone, Copy, PartialEq, Eq, Structural)]
pub enum DockPosition {
    /// At the bottom of the editor
    Bottom,
    /// On the left
    Left,
    /// On the right
    Right,
}

impl Default for DockPosition {
    fn default() -> (p: Self)
        ensures
            p == DockPosition::Bottom,
    {
        DockPosition::Bottom
    }
}

/// How the terminal view draws its cursor.
#[derive(Debug, Clone, Copy, PartialEq, Eq, Structural)]
pub enum TerminalCursorStyle {
    /// Fills the cell
    Block,
    /// At the bottom of the cell
    Underline,
    /// At the left edge of the cell
    Bar,
}

/// The terminal view's cursor.
#[derive(Debug, Clone, Copy, PartialEq, Eq, Structural)]
pub struct TerminalCursor {
    pub row: usize,
    pub col: usize,
    pub visible: bool,
    pub style: TerminalCursorStyle,
}

impl TerminalCursor {
    /// A visible block cursor at the origin.
    pub fn new() -> (c: Self)
        ensures
            c == (TerminalCursor { row: 0, col: 0, visible: true, style: TerminalCursorStyle::Block }),
    {
        TerminalCursor { row: 0, col: 0, visible: true, style: TerminalCursorStyle::Block }
    }
}

impl Default for TerminalCursor {
    fn default() -> (c: Self)
        ensures
            c == (TerminalCursor { row: 0, col: 0, visible: true, style: TerminalCursorStyle::Block }),
    {
        Self::new()
    }
}

} // verus!
