//! What the editor view and its status bar show, as plain values: the
//! selected columns and the cursor column of each line, and the status
//! texts.

use vstd::prelude::*;
use crate::editor::Position;
use crate::commands::{Key, Modifiers};
use crate::text::{concat, str_eq, str_to_chars, usize_decimal, usize_to_string};

verus! {

/// Whether `a` comes before `b` (by line, then column).
pub open spec fn before(a: Position, b: Position) -> bool {
    a.line < b.line || (a.line == b.line && a.col < b.col)
}

/// The two ends of a selection, the earlier first.
pub open spec fn ordered_ends(sel: (Position, Position)) -> (Position, Position) {
    if before(sel.0, sel.1) { sel } else { (sel.1, sel.0) }
}

/// The columns of line `line` (of length `line_len`) that a selection
/// covers, from the first to just past the last: from the selection's start
/// column on its first line (else 0), to its end column on its last line
/// (else the line's end); `None` for a line outside the selection.
pub open spec fn selected_columns(line: usize, line_len: usize, sel: Option<(Position, Position)>) -> Option<(usize, usize)> {
    match sel {
        None => None,
        Some(s) => {
            let (start, end) = ordered_ends(s);
            if start.line <= line && line <= end.line {
                Some((
                    if line == start.line { start.col } else { 0 },
                    if line == end.line { end.col } else { line_len },
                ))
            } else {
                None
            }
        },
    }
}

/// The columns of a line that a selection covers (see
/// [`selected_columns`]).
pub fn line_selection_columns(line: usize, line_len: usize, sel: Option<(Position, Position)>) -> (r: Option<(usize, usize)>)
    ensures
        r == selected_columns(line, line_len, sel),
{
    match sel {
        None => None,
        Some((a, b)) => {
            let (start, end) = if a.line < b.line || (a.line == b.line && a.col < b.col) { (a, b) } else { (b, a) };
            if start.line <= line && line <= end.line {
                let first = if line == start.line { start.col } else { 0 };
                let last = if line == end.line { end.col } else { line_len };
                Some((first, last))
            } else {
                None
            }
        },
    }
}

/// Whether column `i` lies in the selected columns of its line.
pub fn column_selected(i: usize, cols: Option<(usize, usize)>) -> (b: bool)
    ensures
        b == (match cols {
            Some((s, e)) => s <= i && i < e,
            None => false,
        }),
{
    match cols {
        Some((s, e)) => s <= i && i < e,
        None => false,
    }
}

/// The column of the cursor on line `line`, if the cursor is on it.
pub fn cursor_column(line: usize, cursor: Position) -> (r: Option<usize>)
    ensures
        r == (if cursor.line == line { Some(cursor.col) } else { None::<usize> }),
{
    if cursor.line == line {
        Some(cursor.col)
    } else {
        None
    }
}

/// The text shown for a line: the line, or one space for an empty line.
pub fn display_text(line_text: &str) -> (r: String)
    ensures
        r@ == (if line_text@.len() == 0 { seq![' '] } else { line_text@ }),
{
    let cs = str_to_chars(line_text);
    if cs.len() == 0 {
        let s = " ".to_owned();
        proof {
            reveal_strlit(" ");
        }
        s
    } else {
        line_text.to_owned()
    }
}

/// The file text of the status bar: the path (or "untitled"), then " [+]"
/// when the document is modified.
pub open spec fn file_status(path: Option<Seq<char>>, modified: bool) -> Seq<char> {
    (match path {
        Some(p) => p,
        None => "untitled"@,
    }) + (if modified { " [+]"@ } else { Seq::empty() })
}

/// The status bar's texts: the file status (see [`file_status`]), the
/// cursor as "Ln l, Col c" counted from 1, the line count as "n lines",
/// and the selection's size as "n selected" (or "UTF-8" without one).
pub fn status_texts(path: Option<&str>, modified: bool, cursor: Position, lines: usize, selected: Option<usize>) -> (r: (String, String, String, String))
    requires
        cursor.line < usize::MAX,
        cursor.col < usize::MAX,
    ensures
        r.0@ == file_status(match path { Some(p) => Some(p@), None => None }, modified),
        r.1@ == "Ln "@ + usize_decimal((cursor.line + 1) as nat) + ", Col "@ + usize_decimal((cursor.col + 1) as nat),
        r.2@ == usize_decimal(lines as nat) + " lines"@,
        r.3@ == (match selected {
            Some(n) => usize_decimal(n as nat) + " selected"@,
            None => "UTF-8"@,
        }),
{
    let name = match path {
        Some(p) => p,
        None => "untitled",
    };
    let file = if modified { concat(name, " [+]") } else { name.to_owned() };
    let ln = usize_to_string(cursor.line + 1);
    let col = usize_to_string(cursor.col + 1);
    let a = concat("Ln ", ln.as_str());
    let b = concat(a.as_str(), ", Col ");
    let pos = concat(b.as_str(), col.as_str());
    let n = usize_to_string(lines);
    let count = concat(n.as_str(), " lines");
    let sel = match selected {
        Some(k) => {
            let t = usize_to_string(k);
            concat(t.as_str(), " selected")
        },
        None => "UTF-8".to_owned(),
    };
    proof {
        assert(file@ =~= file_status(match path { Some(p) => Some(p@), None => None }, modified));
    }
    (file, pos, count, sel)
}

/// What a key pressed in the editor view does to the editor.
#[derive(Debug, Clone, Copy, PartialEq, Eq, Structural)]
pub enum EditorKeyAction {
    /// Select all text
    SelectAll,
    /// Copy the selection
    Copy,
    /// Cut the selection
    Cut,
    /// Paste
    Paste,
    /// Type a character
    Insert(char),
    /// Move up (extending the selection when the flag is set)
    MoveUp(bool),
    /// Move down
    MoveDown(bool),
    /// Move left
    MoveLeft(bool),
    /// Move right
    MoveRight(bool),
    /// Move to the line's start
    LineStart(bool),
    /// Move to the line's end
    LineEnd(bool),
    /// Delete the character before the cursor
    DeleteBackward,
    /// Delete the character after the cursor
    DeleteForward,
    /// Start a new line
    Newline,
    /// Insert one level of indentation (four spaces)
    Indent,
    /// Drop the selection (moving left without extending it)
    ClearSelection,
}

/// What a key with its modifiers does in the editor view: with Ctrl, `a`,
/// `c`, `x` and `v` select all, copy, cut and paste; a character without
/// Ctrl or Alt is typed; the arrows, Home and End move (extending the
/// selection with Shift); Backspace, Delete and Enter edit; Tab without
/// Shift indents; Escape drops the selection; anything else does nothing.
pub open spec fn editor_key_action_of(key: Key, m: Modifiers) -> Option<EditorKeyAction> {
    match key {
        Key::Char(c) => char_action(c, m),
        Key::Space => char_action(' ', m),
        Key::Up => Some(EditorKeyAction::MoveUp(m.shift)),
        Key::Down => Some(EditorKeyAction::MoveDown(m.shift)),
        Key::Left => Some(EditorKeyAction::MoveLeft(m.shift)),
        Key::Right => Some(EditorKeyAction::MoveRight(m.shift)),
        Key::Home => Some(EditorKeyAction::LineStart(m.shift)),
        Key::End => Some(EditorKeyAction::LineEnd(m.shift)),
        Key::Backspace => Some(EditorKeyAction::DeleteBackward),
        Key::Delete => Some(EditorKeyAction::DeleteForward),
        Key::Enter => Some(EditorKeyAction::Newline),
        Key::Tab => if m.shift { None } else { Some(EditorKeyAction::Indent) },
        Key::Escape => Some(EditorKeyAction::ClearSelection),
        _ => None,
    }
}

/// What a character key does (see [`editor_key_action_of`]).
pub open spec fn char_action(c: char, m: Modifiers) -> Option<EditorKeyAction> {
    if m.ctrl {
        if c == 'a' {
            Some(EditorKeyAction::SelectAll)
        } else if c == 'c' {
            Some(EditorKeyAction::Copy)
        } else if c == 'x' {
            Some(EditorKeyAction::Cut)
        } else if c == 'v' {
            Some(EditorKeyAction::Paste)
        } else {
            None
        }
    } else if !m.alt {
        Some(EditorKeyAction::Insert(c))
    } else {
        None
    }
}

fn char_key_action(c: char, m: Modifiers) -> (r: Option<EditorKeyAction>)
    ensures
        r == char_action(c, m),
{
    if m.ctrl {
        if c == 'a' {
            Some(EditorKeyAction::SelectAll)
        } else if c == 'c' {
            Some(EditorKeyAction::Copy)
        } else if c == 'x' {
            Some(EditorKeyAction::Cut)
        } else if c == 'v' {
            Some(EditorKeyAction::Paste)
        } else {
            None
        }
    } else if !m.alt {
        Some(EditorKeyAction::Insert(c))
    } else {
        None
    }
}

/// What a key with its modifiers does in the editor view (see
/// [`editor_key_action_of`]).
pub fn editor_key_action(key: Key, m: Modifiers) -> (r: Option<EditorKeyAction>)
    ensures
        r == editor_key_action_of(key, m),
{
    match key {
        Key::Char(c) => char_key_action(c, m),
        Key::Space => char_key_action(' ', m),
        Key::Up => Some(EditorKeyAction::MoveUp(m.shift)),
        Key::Down => Some(EditorKeyAction::MoveDown(m.shift)),
        Key::Left => Some(EditorKeyAction::MoveLeft(m.shift)),
        Key::Right => Some(EditorKeyAction::MoveRight(m.shift)),
        Key::Home => Some(EditorKeyAction::LineStart(m.shift)),
        Key::End => Some(EditorKeyAction::LineEnd(m.shift)),
        Key::Backspace => Some(EditorKeyAction::DeleteBackward),
        Key::Delete => Some(EditorKeyAction::DeleteForward),
        Key::Enter => Some(EditorKeyAction::Newline),
        Key::Tab => if m.shift { None } else { Some(EditorKeyAction::Indent) },
        Key::Escape => Some(EditorKeyAction::ClearSelection),
        _ => None,
    }
}

/// What a terminal panel shortcut does.
#[derive(Debug, Clone, Copy, PartialEq, Eq, Structural)]
pub enum TerminalShortcut {
    /// Show or hide the panel
    Toggle,
    /// Open a new tab and show the panel
    NewTab,
    /// Close the active tab
    CloseTab,
    /// Switch to the next tab
    NextTab,
}

/// The terminal panel shortcut of a key name pressed with or without
/// Ctrl: with Ctrl, "`" or "~" toggles the panel, "T" opens a tab, "W"
/// closes the active one, "Tab" goes to the next; anything else is none.
pub open spec fn terminal_shortcut_of(key: Seq<char>, ctrl: bool) -> Option<TerminalShortcut> {
    if !ctrl {
        None
    } else if key == "`"@ || key == "~"@ {
        Some(TerminalShortcut::Toggle)
    } else if key == "T"@ {
        Some(TerminalShortcut::NewTab)
    } else if key == "W"@ {
        Some(TerminalShortcut::CloseTab)
    } else if key == "Tab"@ {
        Some(TerminalShortcut::NextTab)
    } else {
        None
    }
}

/// The terminal panel shortcut of a key (see [`terminal_shortcut_of`]).
pub fn terminal_shortcut(key: &str, ctrl: bool) -> (r: Option<TerminalShortcut>)
    ensures
        r == terminal_shortcut_of(key@, ctrl),
{
    if !ctrl {
        None
    } else if str_eq(key, "`") || str_eq(key, "~") {
        Some(TerminalShortcut::Toggle)
    } else if str_eq(key, "T") {
        Some(TerminalShortcut::NewTab)
    } else if str_eq(key, "W") {
        Some(TerminalShortcut::CloseTab)
    } else if str_eq(key, "Tab") {
        Some(TerminalShortcut::NextTab)
    } else {
        None
    }
}

} // verus!
