//! Editor commands, key bindings and the key map.


pub mod editing;
pub mod navigation;
pub mod file;

use vstd::prelude::*;

verus! {

/// An editor operation, however it was triggered.
#[derive(Debug, Clone, PartialEq, Eq, Hash)]
pub enum Command {
    // ===== File Operations =====
    /// Create a new empty document
    NewFile,

    /// Open file dialog
    OpenFile,

    /// Open a specific file by path
    OpenFilePath(String),

    /// Save current document
    Save,

    /// Save current document to a new path
    SaveAs,

    /// Save all open documents
    SaveAll,

    /// Close current document
    Close,

    /// Close all documents
    CloseAll,

    /// Quit the editor
    Quit,

    /// Force quit without saving
    ForceQuit,

    // ===== Editing Operations =====
    /// Insert text at cursor(s)
    Insert(String),

    /// Undo last change
    Undo,

    /// Redo last undone change
    Redo,

    /// Cut selected text to clipboard
    Cut,

    /// Copy selected text to clipboard
    Copy,

    /// Paste from clipboard
    Paste,

    /// Select all text in document
    SelectAll,

    /// Delete selected text or character at cursor
    Delete,

    /// Delete character before cursor (backspace)
    DeleteBackward,

    /// Delete entire line
    DeleteLine,

    /// Delete from cursor to end of line
    DeleteToEndOfLine,

    /// Delete from cursor to start of line
    DeleteToStartOfLine,

    /// Delete word forward
    DeleteWordForward,

    /// Delete word backward
    DeleteWordBackward,

    /// Duplicate current line(s)
    DuplicateLine,

    /// Move line(s) up
    MoveLineUp,

    /// Move line(s) down
    MoveLineDown,

    /// Join current line with next line
    JoinLines,

    /// Split line at cursor
    SplitLine,

    /// Indent selection or current line
    Indent,

    /// Unindent selection or current line
    Unindent,

    /// Toggle line comment
    ToggleComment,

    /// Toggle block comment
    ToggleBlockComment,

    /// Convert selection to uppercase
    ToUpperCase,

    /// Convert selection to lowercase
    ToLowerCase,

    /// Convert selection to title case
    ToTitleCase,

    // ===== Navigation =====
    /// Move cursor by specified movement
    MoveCursor(Movement),

    /// Extend selection by specified movement
    Select(Movement),

    /// Go to specific line number
    GoToLine(usize),

    /// Go to specific character position
    GoToPosition {
        /// Line (0-indexed)
        line: usize,
        /// Column (0-indexed)
        column: usize,
    },

    /// Jump to matching bracket
    GoToMatchingBracket,

    /// Scroll up by one page
    PageUp,

    /// Scroll down by one page
    PageDown,

    /// Center cursor in viewport
    CenterCursor,

    // ===== Search and Replace =====
    /// Open find dialog
    Find,

    /// Find next occurrence
    FindNext,

    /// Find previous occurrence
    FindPrevious,

    /// Open replace dialog
    Replace,

    /// Replace next occurrence
    ReplaceNext,

    /// Replace all occurrences
    ReplaceAll,

    /// Use selection as find query
    UseSelectionForFind,

    /// Toggle case sensitivity in search
    ToggleCaseSensitive,

    /// Toggle regex mode in search
    ToggleRegex,

    /// Toggle whole word matching in search
    ToggleWholeWord,

    // ===== View Operations =====
    /// Toggle line numbers visibility
    ToggleLineNumbers,

    /// Toggle current line highlighting
    ToggleHighlightCurrentLine,

    /// Toggle whitespace visibility
    ToggleShowWhitespace,

    /// Toggle word wrap
    ToggleWordWrap,

    /// Increase font size
    ZoomIn,

    /// Decrease font size
    ZoomOut,

    /// Reset font size to default
    ZoomReset,

    /// Toggle fullscreen mode
    ToggleFullscreen,

    /// Toggle status bar
    ToggleStatusBar,

    /// Split editor horizontally
    SplitHorizontal,

    /// Split editor vertically
    SplitVertical,

    /// Close current split
    CloseSplit,

    /// Focus next split
    FocusNextSplit,

    /// Focus previous split
    FocusPreviousSplit,

    // ===== Multi-Cursor Operations =====
    /// Add cursor above current cursor
    AddCursorAbove,

    /// Add cursor below current cursor
    AddCursorBelow,

    /// Add cursor at next occurrence of selection
    AddCursorAtNextOccurrence,

    /// Add cursor at all occurrences of selection
    AddCursorAtAllOccurrences,

    /// Remove last added cursor
    RemoveLastCursor,

    /// Remove all cursors except primary
    RemoveAllCursors,

    /// Split selection into lines
    SplitSelectionIntoLines,

    // ===== Document Management =====
    /// Switch to next document
    NextDocument,

    /// Switch to previous document
    PreviousDocument,

    /// Switch to document by index
    SwitchToDocument(usize),

    /// Reload current document from disk
    ReloadDocument,

    // ===== Syntax and Language =====
    /// Set syntax highlighting language
    SetSyntax(String),

    /// Auto-detect syntax from file extension
    AutoDetectSyntax,

    // ===== Configuration =====
    /// Open settings/preferences
    OpenSettings,

    /// Open keymap configuration
    OpenKeymap,

    /// Reload configuration
    ReloadConfig,

    /// Set tab width
    SetTabWidth(usize),

    /// Toggle between spaces and tabs
    ToggleUseSpaces,

    /// Set line ending style
    SetLineEnding(LineEndingStyle),

    // ===== System Integration =====
    /// Show command palette
    ShowCommandPalette,

    /// Show file picker
    ShowFilePicker,

    /// Open terminal (deprecated - use Terminal commands instead)
    OpenTerminal,

    // ===== Terminal Operations =====
    /// Create new terminal
    TerminalNew,

    /// Close current terminal
    TerminalClose,

    /// Close all terminals
    TerminalCloseAll,

    /// Switch to next terminal
    TerminalNext,

    /// Switch to previous terminal
    TerminalPrevious,

    /// Switch to terminal by index (1-based)
    TerminalSwitchTo(usize),

    /// Toggle terminal panel visibility
    TerminalToggle,

    /// Show terminal panel
    TerminalShow,

    /// Hide terminal panel
    TerminalHide,

    /// Clear current terminal
    TerminalClear,

    /// Kill current terminal process
    TerminalKill,

    /// Send input to terminal
    TerminalInput(String),

    // ===== Custom Commands =====
    /// Custom command for plugins/extensions
    Custom {
        /// Command identifier
        id: String,
        /// Arguments
        args: Vec<String>,
    },

    /// No operation (null command)
    Noop,
}

/// Cursor movement types
#[derive(Debug, Clone, Copy, PartialEq, Eq, Structural, Hash)]
pub enum Movement {
    /// Move left by one character
    Left,

    /// Move right by one character
    Right,

    /// Move up by one line
    Up,

    /// Move down by one line
    Down,

    /// Move to start of line
    LineStart,

    /// Move to end of line
    LineEnd,

    /// Move to first non-whitespace character of line
    LineStartNonWhitespace,

    /// Move left by one word
    WordLeft,

    /// Move right by one word
    WordRight,

    /// Move to start of document
    DocumentStart,

    /// Move to end of document
    DocumentEnd,

    /// Move up by one page
    PageUp,

    /// Move down by one page
    PageDown,

    /// Move to start of next paragraph
    ParagraphNext,

    /// Move to start of previous paragraph
    ParagraphPrevious,

    /// Move to matching bracket
    MatchingBracket,
}

/// Line ending styles
#[derive(Debug, Clone, Copy, PartialEq, Eq, Structural, Hash)]
pub enum LineEndingStyle {
    /// Unix-style line endings (\n)
    Lf,

    /// Windows-style line endings (\r\n)
    CrLf,

    /// Classic Mac line endings (\r)
    Cr,
}

/// The commands that change the document.
pub open spec fn spec_modifies_document(c: Command) -> bool {
    c is Insert || c is Delete || c is DeleteBackward || c is DeleteLine || c is DeleteToEndOfLine || c is DeleteToStartOfLine || c is DeleteWordForward || c is DeleteWordBackward || c is Paste || c is Cut || c is DuplicateLine || c is MoveLineUp || c is MoveLineDown || c is JoinLines || c is SplitLine || c is Indent || c is Unindent || c is ToggleComment || c is ToggleBlockComment || c is ToUpperCase || c is ToLowerCase || c is ToTitleCase || c is ReplaceNext || c is ReplaceAll
}

/// The human-readable name of a command.
pub open spec fn spec_description(c: Command) -> &'static str {
    match c {
        Command::NewFile => "New File",
        Command::OpenFile => "Open File",
        Command::OpenFilePath(_) => "Open File Path",
        Command::Save => "Save",
        Command::SaveAs => "Save As",
        Command::SaveAll => "Save All",
        Command::Close => "Close",
        Command::CloseAll => "Close All",
        Command::Quit => "Quit",
        Command::ForceQuit => "Force Quit",
        Command::Insert(_) => "Insert Text",
        Command::Undo => "Undo",
        Command::Redo => "Redo",
        Command::Cut => "Cut",
        Command::Copy => "Copy",
        Command::Paste => "Paste",
        Command::SelectAll => "Select All",
        Command::Delete => "Delete",
        Command::DeleteBackward => "Delete Backward",
        Command::DeleteLine => "Delete Line",
        Command::DeleteToEndOfLine => "Delete to End of Line",
        Command::DeleteToStartOfLine => "Delete to Start of Line",
        Command::DeleteWordForward => "Delete Word Forward",
        Command::DeleteWordBackward => "Delete Word Backward",
        Command::DuplicateLine => "Duplicate Line",
        Command::MoveLineUp => "Move Line Up",
        Command::MoveLineDown => "Move Line Down",
        Command::JoinLines => "Join Lines",
        Command::SplitLine => "Split Line",
        Command::Indent => "Indent",
        Command::Unindent => "Unindent",
        Command::ToggleComment => "Toggle Comment",
        Command::ToggleBlockComment => "Toggle Block Comment",
        Command::ToUpperCase => "To Uppercase",
        Command::ToLowerCase => "To Lowercase",
        Command::ToTitleCase => "To Title Case",
        Command::MoveCursor(_) => "Move Cursor",
        Command::Select(_) => "Select",
        Command::GoToLine(_) => "Go to Line",
        Command::GoToPosition { .. } => "Go to Position",
        Command::GoToMatchingBracket => "Go to Matching Bracket",
        Command::PageUp => "Page Up",
        Command::PageDown => "Page Down",
        Command::CenterCursor => "Center Cursor",
        Command::Find => "Find",
        Command::FindNext => "Find Next",
        Command::FindPrevious => "Find Previous",
        Command::Replace => "Replace",
        Command::ReplaceNext => "Replace Next",
        Command::ReplaceAll => "Replace All",
        Command::UseSelectionForFind => "Use Selection for Find",
        Command::ToggleCaseSensitive => "Toggle Case Sensitive",
        Command::ToggleRegex => "Toggle Regex",
        Command::ToggleWholeWord => "Toggle Whole Word",
        Command::ToggleLineNumbers => "Toggle Line Numbers",
        Command::ToggleHighlightCurrentLine => "Toggle Highlight Current Line",
        Command::ToggleShowWhitespace => "Toggle Show Whitespace",
        Command::ToggleWordWrap => "Toggle Word Wrap",
        Command::ZoomIn => "Zoom In",
        Command::ZoomOut => "Zoom Out",
        Command::ZoomReset => "Reset Zoom",
        Command::ToggleFullscreen => "Toggle Fullscreen",
        Command::ToggleStatusBar => "Toggle Status Bar",
        Command::SplitHorizontal => "Split Horizontal",
        Command::SplitVertical => "Split Vertical",
        Command::CloseSplit => "Close Split",
        Command::FocusNextSplit => "Focus Next Split",
        Command::FocusPreviousSplit => "Focus Previous Split",
        Command::AddCursorAbove => "Add Cursor Above",
        Command::AddCursorBelow => "Add Cursor Below",
        Command::AddCursorAtNextOccurrence => "Add Cursor at Next Occurrence",
        Command::AddCursorAtAllOccurrences => "Add Cursor at All Occurrences",
        Command::RemoveLastCursor => "Remove Last Cursor",
        Command::RemoveAllCursors => "Remove All Cursors",
        Command::SplitSelectionIntoLines => "Split Selection into Lines",
        Command::NextDocument => "Next Document",
        Command::PreviousDocument => "Previous Document",
        Command::SwitchToDocument(_) => "Switch to Document",
        Command::ReloadDocument => "Reload Document",
        Command::SetSyntax(_) => "Set Syntax",
        Command::AutoDetectSyntax => "Auto Detect Syntax",
        Command::OpenSettings => "Open Settings",
        Command::OpenKeymap => "Open Keymap",
        Command::ReloadConfig => "Reload Config",
        Command::SetTabWidth(_) => "Set Tab Width",
        Command::ToggleUseSpaces => "Toggle Use Spaces",
        Command::SetLineEnding(_) => "Set Line Ending",
        Command::ShowCommandPalette => "Show Command Palette",
        Command::ShowFilePicker => "Show File Picker",
        Command::OpenTerminal => "Open Terminal",
        Command::TerminalNew => "New Terminal",
        Command::TerminalClose => "Close Terminal",
        Command::TerminalCloseAll => "Close All Terminals",
        Command::TerminalNext => "Next Terminal",
        Command::TerminalPrevious => "Previous Terminal",
        Command::TerminalSwitchTo(_) => "Switch to Terminal",
        Command::TerminalToggle => "Toggle Terminal Panel",
        Command::TerminalShow => "Show Terminal Panel",
        Command::TerminalHide => "Hide Terminal Panel",
        Command::TerminalClear => "Clear Terminal",
        Command::TerminalKill => "Kill Terminal Process",
        Command::TerminalInput(_) => "Send Input to Terminal",
        Command::Custom { .. } => "Custom Command",
        Command::Noop => "No Operation",
    }
}

/// Two lists of strings with equal texts.
pub open spec fn strings_eq(a: Seq<String>, b: Seq<String>) -> bool {
    &&& a.len() == b.len()
    &&& forall|i: int| 0 <= i < a.len() ==> #[trigger] a[i]@ == b[i]@
}

/// Two commands are the same: the same variant with equal fields, strings
/// compared by their text.
pub open spec fn command_eq(a: Command, b: Command) -> bool {
    match a {
        Command::NewFile => b is NewFile,
        Command::OpenFile => b is OpenFile,
        Command::OpenFilePath(x) => match b {
            Command::OpenFilePath(y) => x@ == y@,
            _ => false,
        },
        Command::Save => b is Save,
        Command::SaveAs => b is SaveAs,
        Command::SaveAll => b is SaveAll,
        Command::Close => b is Close,
        Command::CloseAll => b is CloseAll,
        Command::Quit => b is Quit,
        Command::ForceQuit => b is ForceQuit,
        Command::Insert(x) => match b {
            Command::Insert(y) => x@ == y@,
            _ => false,
        },
        Command::Undo => b is Undo,
        Command::Redo => b is Redo,
        Command::Cut => b is Cut,
        Command::Copy => b is Copy,
        Command::Paste => b is Paste,
        Command::SelectAll => b is SelectAll,
        Command::Delete => b is Delete,
        Command::DeleteBackward => b is DeleteBackward,
        Command::DeleteLine => b is DeleteLine,
        Command::DeleteToEndOfLine => b is DeleteToEndOfLine,
        Command::DeleteToStartOfLine => b is DeleteToStartOfLine,
        Command::DeleteWordForward => b is DeleteWordForward,
        Command::DeleteWordBackward => b is DeleteWordBackward,
        Command::DuplicateLine => b is DuplicateLine,
        Command::MoveLineUp => b is MoveLineUp,
        Command::MoveLineDown => b is MoveLineDown,
        Command::JoinLines => b is JoinLines,
        Command::SplitLine => b is SplitLine,
        Command::Indent => b is Indent,
        Command::Unindent => b is Unindent,
        Command::ToggleComment => b is ToggleComment,
        Command::ToggleBlockComment => b is ToggleBlockComment,
        Command::ToUpperCase => b is ToUpperCase,
        Command::ToLowerCase => b is ToLowerCase,
        Command::ToTitleCase => b is ToTitleCase,
        Command::MoveCursor(x) => match b {
            Command::MoveCursor(y) => x == y,
            _ => false,
        },
        Command::Select(x) => match b {
            Command::Select(y) => x == y,
            _ => false,
        },
        Command::GoToLine(x) => match b {
            Command::GoToLine(y) => x == y,
            _ => false,
        },
        Command::GoToPosition { line, column } => match b {
            Command::GoToPosition { line: l2, column: c2 } => line == l2 && column == c2,
            _ => false,
        },
        Command::GoToMatchingBracket => b is GoToMatchingBracket,
        Command::PageUp => b is PageUp,
        Command::PageDown => b is PageDown,
        Command::CenterCursor => b is CenterCursor,
        Command::Find => b is Find,
        Command::FindNext => b is FindNext,
        Command::FindPrevious => b is FindPrevious,
        Command::Replace => b is Replace,
        Command::ReplaceNext => b is ReplaceNext,
        Command::ReplaceAll => b is ReplaceAll,
        Command::UseSelectionForFind => b is UseSelectionForFind,
        Command::ToggleCaseSensitive => b is ToggleCaseSensitive,
        Command::ToggleRegex => b is ToggleRegex,
        Command::ToggleWholeWord => b is ToggleWholeWord,
        Command::ToggleLineNumbers => b is ToggleLineNumbers,
        Command::ToggleHighlightCurrentLine => b is ToggleHighlightCurrentLine,
        Command::ToggleShowWhitespace => b is ToggleShowWhitespace,
        Command::ToggleWordWrap => b is ToggleWordWrap,
        Command::ZoomIn => b is ZoomIn,
        Command::ZoomOut => b is ZoomOut,
        Command::ZoomReset => b is ZoomReset,
        Command::ToggleFullscreen => b is ToggleFullscreen,
        Command::ToggleStatusBar => b is ToggleStatusBar,
        Command::SplitHorizontal => b is SplitHorizontal,
        Command::SplitVertical => b is SplitVertical,
        Command::CloseSplit => b is CloseSplit,
        Command::FocusNextSplit => b is FocusNextSplit,
        Command::FocusPreviousSplit => b is FocusPreviousSplit,
        Command::AddCursorAbove => b is AddCursorAbove,
        Command::AddCursorBelow => b is AddCursorBelow,
        Command::AddCursorAtNextOccurrence => b is AddCursorAtNextOccurrence,
        Command::AddCursorAtAllOccurrences => b is AddCursorAtAllOccurrences,
        Command::RemoveLastCursor => b is RemoveLastCursor,
        Command::RemoveAllCursors => b is RemoveAllCursors,
        Command::SplitSelectionIntoLines => b is SplitSelectionIntoLines,
        Command::NextDocument => b is NextDocument,
        Command::PreviousDocument => b is PreviousDocument,
        Command::SwitchToDocument(x) => match b {
            Command::SwitchToDocument(y) => x == y,
            _ => false,
        },
        Command::ReloadDocument => b is ReloadDocument,
        Command::SetSyntax(x) => match b {
            Command::SetSyntax(y) => x@ == y@,
            _ => false,
        },
        Command::AutoDetectSyntax => b is AutoDetectSyntax,
        Command::OpenSettings => b is OpenSettings,
        Command::OpenKeymap => b is OpenKeymap,
        Command::ReloadConfig => b is ReloadConfig,
        Command::SetTabWidth(x) => match b {
            Command::SetTabWidth(y) => x == y,
            _ => false,
        },
        Command::ToggleUseSpaces => b is ToggleUseSpaces,
        Command::SetLineEnding(x) => match b {
            Command::SetLineEnding(y) => x == y,
            _ => false,
        },
        Command::ShowCommandPalette => b is ShowCommandPalette,
        Command::ShowFilePicker => b is ShowFilePicker,
        Command::OpenTerminal => b is OpenTerminal,
        Command::TerminalNew => b is TerminalNew,
        Command::TerminalClose => b is TerminalClose,
        Command::TerminalCloseAll => b is TerminalCloseAll,
        Command::TerminalNext => b is TerminalNext,
        Command::TerminalPrevious => b is TerminalPrevious,
        Command::TerminalSwitchTo(x) => match b {
            Command::TerminalSwitchTo(y) => x == y,
            _ => false,
        },
        Command::TerminalToggle => b is TerminalToggle,
        Command::TerminalShow => b is TerminalShow,
        Command::TerminalHide => b is TerminalHide,
        Command::TerminalClear => b is TerminalClear,
        Command::TerminalKill => b is TerminalKill,
        Command::TerminalInput(x) => match b {
            Command::TerminalInput(y) => x@ == y@,
            _ => false,
        },
        Command::Custom { id, args } => match b {
            Command::Custom { id: id2, args: args2 } => id@ == id2@ && strings_eq(args@, args2@),
            _ => false,
        },
        Command::Noop => b is Noop,
    }
}

fn same_strings(a: &Vec<String>, b: &Vec<String>) -> (r: bool)
    ensures
        r == strings_eq(a@, b@),
{
    if a.len() != b.len() {
        return false;
    }
    let mut i: usize = 0;
    while i < a.len()
        invariant
            a@.len() == b@.len(),
            i <= a@.len(),
            forall|j: int| 0 <= j < i ==> #[trigger] a@[j]@ == b@[j]@,
        decreases a@.len() - i,
    {
        if a[i] != b[i] {
            return false;
        }
        i = i + 1;
    }
    true
}

impl Command {
    /// Whether the command changes the document.
    pub fn modifies_document(&self) -> (b: bool)
        ensures
            b == spec_modifies_document(*self),
    {
        match self {
            Command::Insert(_) | Command::Delete | Command::DeleteBackward | Command::DeleteLine
            | Command::DeleteToEndOfLine | Command::DeleteToStartOfLine | Command::DeleteWordForward
            | Command::DeleteWordBackward | Command::Paste | Command::Cut | Command::DuplicateLine
            | Command::MoveLineUp | Command::MoveLineDown | Command::JoinLines | Command::SplitLine
            | Command::Indent | Command::Unindent | Command::ToggleComment
            | Command::ToggleBlockComment | Command::ToUpperCase | Command::ToLowerCase
            | Command::ToTitleCase | Command::ReplaceNext | Command::ReplaceAll => true,
            _ => false,
        }
    }

    /// Whether the command belongs in the undo history: exactly the
    /// commands that change the document.
    pub fn is_undoable(&self) -> (b: bool)
        ensures
            b == spec_modifies_document(*self),
    {
        self.modifies_document()
    }

    /// The command's human-readable name.
    pub fn description(&self) -> (s: &'static str)
        ensures
            s == spec_description(*self),
    {
        match self {
            Command::NewFile => "New File",
            Command::OpenFile => "Open File",
            Command::OpenFilePath(_) => "Open File Path",
            Command::Save => "Save",
            Command::SaveAs => "Save As",
            Command::SaveAll => "Save All",
            Command::Close => "Close",
            Command::CloseAll => "Close All",
            Command::Quit => "Quit",
            Command::ForceQuit => "Force Quit",
            Command::Insert(_) => "Insert Text",
            Command::Undo => "Undo",
            Command::Redo => "Redo",
            Command::Cut => "Cut",
            Command::Copy => "Copy",
            Command::Paste => "Paste",
            Command::SelectAll => "Select All",
            Command::Delete => "Delete",
            Command::DeleteBackward => "Delete Backward",
            Command::DeleteLine => "Delete Line",
            Command::DeleteToEndOfLine => "Delete to End of Line",
            Command::DeleteToStartOfLine => "Delete to Start of Line",
            Command::DeleteWordForward => "Delete Word Forward",
            Command::DeleteWordBackward => "Delete Word Backward",
            Command::DuplicateLine => "Duplicate Line",
            Command::MoveLineUp => "Move Line Up",
            Command::MoveLineDown => "Move Line Down",
            Command::JoinLines => "Join Lines",
            Command::SplitLine => "Split Line",
            Command::Indent => "Indent",
            Command::Unindent => "Unindent",
            Command::ToggleComment => "Toggle Comment",
            Command::ToggleBlockComment => "Toggle Block Comment",
            Command::ToUpperCase => "To Uppercase",
            Command::ToLowerCase => "To Lowercase",
            Command::ToTitleCase => "To Title Case",
            Command::MoveCursor(_) => "Move Cursor",
            Command::Select(_) => "Select",
            Command::GoToLine(_) => "Go to Line",
            Command::GoToPosition { .. } => "Go to Position",
            Command::GoToMatchingBracket => "Go to Matching Bracket",
            Command::PageUp => "Page Up",
            Command::PageDown => "Page Down",
            Command::CenterCursor => "Center Cursor",
            Command::Find => "Find",
            Command::FindNext => "Find Next",
            Command::FindPrevious => "Find Previous",
            Command::Replace => "Replace",
            Command::ReplaceNext => "Replace Next",
            Command::ReplaceAll => "Replace All",
            Command::UseSelectionForFind => "Use Selection for Find",
            Command::ToggleCaseSensitive => "Toggle Case Sensitive",
            Command::ToggleRegex => "Toggle Regex",
            Command::ToggleWholeWord => "Toggle Whole Word",
            Command::ToggleLineNumbers => "Toggle Line Numbers",
            Command::ToggleHighlightCurrentLine => "Toggle Highlight Current Line",
            Command::ToggleShowWhitespace => "Toggle Show Whitespace",
            Command::ToggleWordWrap => "Toggle Word Wrap",
            Command::ZoomIn => "Zoom In",
            Command::ZoomOut => "Zoom Out",
            Command::ZoomReset => "Reset Zoom",
            Command::ToggleFullscreen => "Toggle Fullscreen",
            Command::ToggleStatusBar => "Toggle Status Bar",
            Command::SplitHorizontal => "Split Horizontal",
            Command::SplitVertical => "Split Vertical",
            Command::CloseSplit => "Close Split",
            Command::FocusNextSplit => "Focus Next Split",
            Command::FocusPreviousSplit => "Focus Previous Split",
            Command::AddCursorAbove => "Add Cursor Above",
            Command::AddCursorBelow => "Add Cursor Below",
            Command::AddCursorAtNextOccurrence => "Add Cursor at Next Occurrence",
            Command::AddCursorAtAllOccurrences => "Add Cursor at All Occurrences",
            Command::RemoveLastCursor => "Remove Last Cursor",
            Command::RemoveAllCursors => "Remove All Cursors",
            Command::SplitSelectionIntoLines => "Split Selection into Lines",
            Command::NextDocument => "Next Document",
            Command::PreviousDocument => "Previous Document",
            Command::SwitchToDocument(_) => "Switch to Document",
            Command::ReloadDocument => "Reload Document",
            Command::SetSyntax(_) => "Set Syntax",
            Command::AutoDetectSyntax => "Auto Detect Syntax",
            Command::OpenSettings => "Open Settings",
            Command::OpenKeymap => "Open Keymap",
            Command::ReloadConfig => "Reload Config",
            Command::SetTabWidth(_) => "Set Tab Width",
            Command::ToggleUseSpaces => "Toggle Use Spaces",
            Command::SetLineEnding(_) => "Set Line Ending",
            Command::ShowCommandPalette => "Show Command Palette",
            Command::ShowFilePicker => "Show File Picker",
            Command::OpenTerminal => "Open Terminal",
            Command::TerminalNew => "New Terminal",
            Command::TerminalClose => "Close Terminal",
            Command::TerminalCloseAll => "Close All Terminals",
            Command::TerminalNext => "Next Terminal",
            Command::TerminalPrevious => "Previous Terminal",
            Command::TerminalSwitchTo(_) => "Switch to Terminal",
            Command::TerminalToggle => "Toggle Terminal Panel",
            Command::TerminalShow => "Show Terminal Panel",
            Command::TerminalHide => "Hide Terminal Panel",
            Command::TerminalClear => "Clear Terminal",
            Command::TerminalKill => "Kill Terminal Process",
            Command::TerminalInput(_) => "Send Input to Terminal",
            Command::Custom { .. } => "Custom Command",
            Command::Noop => "No Operation",
        }
    }

    /// Whether two commands are the same.
    pub fn same_as(&self, other: &Command) -> (b: bool)
        ensures
            b == command_eq(*self, *other),
    {
        match self {
            Command::NewFile => matches!(other, Command::NewFile),
            Command::OpenFile => matches!(other, Command::OpenFile),
            Command::OpenFilePath(x) => match other {
                Command::OpenFilePath(y) => *x == *y,
                _ => false,
            },
            Command::Save => matches!(other, Command::Save),
            Command::SaveAs => matches!(other, Command::SaveAs),
            Command::SaveAll => matches!(other, Command::SaveAll),
            Command::Close => matches!(other, Command::Close),
            Command::CloseAll => matches!(other, Command::CloseAll),
            Command::Quit => matches!(other, Command::Quit),
            Command::ForceQuit => matches!(other, Command::ForceQuit),
            Command::Insert(x) => match other {
                Command::Insert(y) => *x == *y,
                _ => false,
            },
            Command::Undo => matches!(other, Command::Undo),
            Command::Redo => matches!(other, Command::Redo),
            Command::Cut => matches!(other, Command::Cut),
            Command::Copy => matches!(other, Command::Copy),
            Command::Paste => matches!(other, Command::Paste),
            Command::SelectAll => matches!(other, Command::SelectAll),
            Command::Delete => matches!(other, Command::Delete),
            Command::DeleteBackward => matches!(other, Command::DeleteBackward),
            Command::DeleteLine => matches!(other, Command::DeleteLine),
            Command::DeleteToEndOfLine => matches!(other, Command::DeleteToEndOfLine),
            Command::DeleteToStartOfLine => matches!(other, Command::DeleteToStartOfLine),
            Command::DeleteWordForward => matches!(other, Command::DeleteWordForward),
            Command::DeleteWordBackward => matches!(other, Command::DeleteWordBackward),
            Command::DuplicateLine => matches!(other, Command::DuplicateLine),
            Command::MoveLineUp => matches!(other, Command::MoveLineUp),
            Command::MoveLineDown => matches!(other, Command::MoveLineDown),
            Command::JoinLines => matches!(other, Command::JoinLines),
            Command::SplitLine => matches!(other, Command::SplitLine),
            Command::Indent => matches!(other, Command::Indent),
            Command::Unindent => matches!(other, Command::Unindent),
            Command::ToggleComment => matches!(other, Command::ToggleComment),
            Command::ToggleBlockComment => matches!(other, Command::ToggleBlockComment),
            Command::ToUpperCase => matches!(other, Command::ToUpperCase),
            Command::ToLowerCase => matches!(other, Command::ToLowerCase),
            Command::ToTitleCase => matches!(other, Command::ToTitleCase),
            Command::MoveCursor(x) => match other {
                Command::MoveCursor(y) => *x == *y,
                _ => false,
            },
            Command::Select(x) => match other {
                Command::Select(y) => *x == *y,
                _ => false,
            },
            Command::GoToLine(x) => match other {
                Command::GoToLine(y) => *x == *y,
                _ => false,
            },
            Command::GoToPosition { line, column } => match other {
                Command::GoToPosition { line: l2, column: c2 } => *line == *l2 && *column == *c2,
                _ => false,
            },
            Command::GoToMatchingBracket => matches!(other, Command::GoToMatchingBracket),
            Command::PageUp => matches!(other, Command::PageUp),
            Command::PageDown => matches!(other, Command::PageDown),
            Command::CenterCursor => matches!(other, Command::CenterCursor),
            Command::Find => matches!(other, Command::Find),
            Command::FindNext => matches!(other, Command::FindNext),
            Command::FindPrevious => matches!(other, Command::FindPrevious),
            Command::Replace => matches!(other, Command::Replace),
            Command::ReplaceNext => matches!(other, Command::ReplaceNext),
            Command::ReplaceAll => matches!(other, Command::ReplaceAll),
            Command::UseSelectionForFind => matches!(other, Command::UseSelectionForFind),
            Command::ToggleCaseSensitive => matches!(other, Command::ToggleCaseSensitive),
            Command::ToggleRegex => matches!(other, Command::ToggleRegex),
            Command::ToggleWholeWord => matches!(other, Command::ToggleWholeWord),
            Command::ToggleLineNumbers => matches!(other, Command::ToggleLineNumbers),
            Command::ToggleHighlightCurrentLine => matches!(other, Command::ToggleHighlightCurrentLine),
            Command::ToggleShowWhitespace => matches!(other, Command::ToggleShowWhitespace),
            Command::ToggleWordWrap => matches!(other, Command::ToggleWordWrap),
            Command::ZoomIn => matches!(other, Command::ZoomIn),
            Command::ZoomOut => matches!(other, Command::ZoomOut),
            Command::ZoomReset => matches!(other, Command::ZoomReset),
            Command::ToggleFullscreen => matches!(other, Command::ToggleFullscreen),
            Command::ToggleStatusBar => matches!(other, Command::ToggleStatusBar),
            Command::SplitHorizontal => matches!(other, Command::SplitHorizontal),
            Command::SplitVertical => matches!(other, Command::SplitVertical),
            Command::CloseSplit => matches!(other, Command::CloseSplit),
            Command::FocusNextSplit => matches!(other, Command::FocusNextSplit),
            Command::FocusPreviousSplit => matches!(other, Command::FocusPreviousSplit),
            Command::AddCursorAbove => matches!(other, Command::AddCursorAbove),
            Command::AddCursorBelow => matches!(other, Command::AddCursorBelow),
            Command::AddCursorAtNextOccurrence => matches!(other, Command::AddCursorAtNextOccurrence),
            Command::AddCursorAtAllOccurrences => matches!(other, Command::AddCursorAtAllOccurrences),
            Command::RemoveLastCursor => matches!(other, Command::RemoveLastCursor),
            Command::RemoveAllCursors => matches!(other, Command::RemoveAllCursors),
            Command::SplitSelectionIntoLines => matches!(other, Command::SplitSelectionIntoLines),
            Command::NextDocument => matches!(other, Command::NextDocument),
            Command::PreviousDocument => matches!(other, Command::PreviousDocument),
            Command::SwitchToDocument(x) => match other {
                Command::SwitchToDocument(y) => *x == *y,
                _ => false,
            },
            Command::ReloadDocument => matches!(other, Command::ReloadDocument),
            Command::SetSyntax(x) => match other {
                Command::SetSyntax(y) => *x == *y,
                _ => false,
            },
            Command::AutoDetectSyntax => matches!(other, Command::AutoDetectSyntax),
            Command::OpenSettings => matches!(other, Command::OpenSettings),
            Command::OpenKeymap => matches!(other, Command::OpenKeymap),
            Command::ReloadConfig => matches!(other, Command::ReloadConfig),
            Command::SetTabWidth(x) => match other {
                Command::SetTabWidth(y) => *x == *y,
                _ => false,
            },
            Command::ToggleUseSpaces => matches!(other, Command::ToggleUseSpaces),
            Command::SetLineEnding(x) => match other {
                Command::SetLineEnding(y) => *x == *y,
                _ => false,
            },
            Command::ShowCommandPalette => matches!(other, Command::ShowCommandPalette),
            Command::ShowFilePicker => matches!(other, Command::ShowFilePicker),
            Command::OpenTerminal => matches!(other, Command::OpenTerminal),
            Command::TerminalNew => matches!(other, Command::TerminalNew),
            Command::TerminalClose => matches!(other, Command::TerminalClose),
            Command::TerminalCloseAll => matches!(other, Command::TerminalCloseAll),
            Command::TerminalNext => matches!(other, Command::TerminalNext),
            Command::TerminalPrevious => matches!(other, Command::TerminalPrevious),
            Command::TerminalSwitchTo(x) => match other {
                Command::TerminalSwitchTo(y) => *x == *y,
                _ => false,
            },
            Command::TerminalToggle => matches!(other, Command::TerminalToggle),
            Command::TerminalShow => matches!(other, Command::TerminalShow),
            Command::TerminalHide => matches!(other, Command::TerminalHide),
            Command::TerminalClear => matches!(other, Command::TerminalClear),
            Command::TerminalKill => matches!(other, Command::TerminalKill),
            Command::TerminalInput(x) => match other {
                Command::TerminalInput(y) => *x == *y,
                _ => false,
            },
            Command::Custom { id, args } => match other {
                Command::Custom { id: id2, args: args2 } => *id == *id2 && same_strings(args, args2),
                _ => false,
            },
            Command::Noop => matches!(other, Command::Noop),
        }
    }
}

/// Modifier keys held with a key.
#[derive(Debug, Clone, Copy, PartialEq, Eq, Structural, Hash)]
pub struct Modifiers {
    /// Control key (Cmd on macOS)
    pub ctrl: bool,
    /// Shift key
    pub shift: bool,
    /// Alt/Option key
    pub alt: bool,
    /// Meta/Super/Windows key
    pub meta: bool,
}

/// No modifier.
pub open spec fn none() -> Modifiers {
    Modifiers { ctrl: false, shift: false, alt: false, meta: false }
}

/// Ctrl alone.
pub open spec fn ctrl() -> Modifiers {
    Modifiers { ctrl: true, shift: false, alt: false, meta: false }
}

/// Shift alone.
pub open spec fn shift() -> Modifiers {
    Modifiers { ctrl: false, shift: true, alt: false, meta: false }
}

/// Alt alone.
pub open spec fn alt() -> Modifiers {
    Modifiers { ctrl: false, shift: false, alt: true, meta: false }
}

/// Ctrl and Shift.
pub open spec fn ctrl_shift() -> Modifiers {
    Modifiers { ctrl: true, shift: true, alt: false, meta: false }
}

/// Ctrl and Alt.
pub open spec fn ctrl_alt() -> Modifiers {
    Modifiers { ctrl: true, shift: false, alt: true, meta: false }
}

impl Modifiers {
    /// No modifier held.
    pub fn none() -> (m: Self)
        ensures
            m == none(),
    {
        Self { ctrl: false, shift: false, alt: false, meta: false }
    }

    /// Only Ctrl held.
    pub fn ctrl() -> (m: Self)
        ensures
            m == ctrl(),
    {
        Self { ctrl: true, shift: false, alt: false, meta: false }
    }

    /// Only Shift held.
    pub fn shift() -> (m: Self)
        ensures
            m == shift(),
    {
        Self { ctrl: false, shift: true, alt: false, meta: false }
    }

    /// Only Alt held.
    pub fn alt() -> (m: Self)
        ensures
            m == alt(),
    {
        Self { ctrl: false, shift: false, alt: true, meta: false }
    }

    /// Ctrl and Shift held.
    pub fn ctrl_shift() -> (m: Self)
        ensures
            m == ctrl_shift(),
    {
        Self { ctrl: true, shift: true, alt: false, meta: false }
    }

    /// Ctrl and Alt held.
    pub fn ctrl_alt() -> (m: Self)
        ensures
            m == ctrl_alt(),
    {
        Self { ctrl: true, shift: false, alt: true, meta: false }
    }
}

/// Key codes for keyboard input
#[derive(Debug, Clone, Copy, PartialEq, Eq, Structural, Hash)]
pub enum Key {
    /// Character key
    Char(char),

    /// Backspace
    Backspace,

    /// Delete
    Delete,

    /// Enter/Return
    Enter,

    /// Tab
    Tab,

    /// Escape
    Escape,

    /// Space
    Space,

    /// Left arrow
    Left,
    /// Right arrow
    Right,
    /// Up arrow
    Up,
    /// Down arrow
    Down,

    /// Home
    Home,

    /// End
    End,

    /// Page Up
    PageUp,

    /// Page Down
    PageDown,

    /// Insert
    Insert,

    /// Function key 1
    F1,
    /// Function key 2
    F2,
    /// Function key 3
    F3,
    /// Function key 4
    F4,
    /// Function key 5
    F5,
    /// Function key 6
    F6,
    /// Function key 7
    F7,
    /// Function key 8
    F8,
    /// Function key 9
    F9,
    /// Function key 10
    F10,
    /// Function key 11
    F11,
    /// Function key 12
    F12,
}

/// A key with the modifiers held.
#[derive(Debug, Clone, Copy, PartialEq, Eq, Structural, Hash)]
pub struct KeyBinding {
    /// The key
    pub key: Key,
    /// The modifiers
    pub modifiers: Modifiers,
}

/// The binding of a key with modifiers.
pub open spec fn binding(key: Key, modifiers: Modifiers) -> KeyBinding {
    KeyBinding { key, modifiers }
}

impl KeyBinding {
    /// A key with modifiers.
    pub fn new(key: Key, modifiers: Modifiers) -> (b: Self)
        ensures
            b == binding(key, modifiers),
    {
        Self { key, modifiers }
    }

    /// A key with no modifier.
    pub fn simple(key: Key) -> (b: Self)
        ensures
            b == binding(key, none()),
    {
        Self { key, modifiers: Modifiers::none() }
    }
}

/// The entries without those for key binding `kb`, in order.
pub open spec fn without_key(es: Seq<(KeyBinding, Command)>, kb: KeyBinding) -> Seq<(KeyBinding, Command)>
    decreases es.len(),
{
    if es.len() == 0 {
        es
    } else {
        let rest = without_key(es.drop_last(), kb);
        if es.last().0 == kb {
            rest
        } else {
            rest.push(es.last())
        }
    }
}

/// The entries after binding `kb` to `c`: any entry for `kb` goes and the
/// new one comes last.
pub open spec fn bind_entries(es: Seq<(KeyBinding, Command)>, kb: KeyBinding, c: Command) -> Seq<(KeyBinding, Command)> {
    without_key(es, kb).push((kb, c))
}

/// The command bound to `kb` by the last entry for it.
pub open spec fn lookup_in(es: Seq<(KeyBinding, Command)>, kb: KeyBinding) -> Option<Command>
    decreases es.len(),
{
    if es.len() == 0 {
        None
    } else if es.last().0 == kb {
        Some(es.last().1)
    } else {
        lookup_in(es.drop_last(), kb)
    }
}

/// The key bindings of the entries bound to command `c`, in order.
pub open spec fn bindings_of(es: Seq<(KeyBinding, Command)>, c: Command) -> Seq<KeyBinding>
    decreases es.len(),
{
    if es.len() == 0 {
        Seq::empty()
    } else {
        let rest = bindings_of(es.drop_last(), c);
        if command_eq(es.last().1, c) {
            rest.push(es.last().0)
        } else {
            rest
        }
    }
}

/// The entries after binding each pair of `list` in turn.
pub open spec fn bind_all(es: Seq<(KeyBinding, Command)>, list: Seq<(KeyBinding, Command)>) -> Seq<(KeyBinding, Command)>
    decreases list.len(),
{
    if list.len() == 0 {
        es
    } else {
        bind_entries(bind_all(es, list.drop_last()), list.last().0, list.last().1)
    }
}

/// Default key bindings: opening, saving and closing files; undo and redo.
pub open spec fn file_and_history_bindings() -> Seq<(KeyBinding, Command)> {
    seq![
        (binding(Key::Char('n'), ctrl()), Command::NewFile),
        (binding(Key::Char('o'), ctrl()), Command::OpenFile),
        (binding(Key::Char('s'), ctrl()), Command::Save),
        (binding(Key::Char('s'), ctrl_shift()), Command::SaveAs),
        (binding(Key::Char('w'), ctrl()), Command::Close),
        (binding(Key::Char('q'), ctrl()), Command::Quit),
        (binding(Key::Char('z'), ctrl()), Command::Undo),
        (binding(Key::Char('y'), ctrl()), Command::Redo),
        (binding(Key::Char('z'), ctrl_shift()), Command::Redo),
    ]
}

/// Default key bindings: the clipboard, select all, and deletion.
pub open spec fn clipboard_and_deletion_bindings() -> Seq<(KeyBinding, Command)> {
    seq![
        (binding(Key::Char('x'), ctrl()), Command::Cut),
        (binding(Key::Char('c'), ctrl()), Command::Copy),
        (binding(Key::Char('v'), ctrl()), Command::Paste),
        (binding(Key::Char('a'), ctrl()), Command::SelectAll),
        (binding(Key::Delete, none()), Command::Delete),
        (binding(Key::Backspace, none()), Command::DeleteBackward),
        (binding(Key::Char('d'), ctrl()), Command::DeleteLine),
        (binding(Key::Char('k'), ctrl()), Command::DeleteToEndOfLine),
        (binding(Key::Delete, ctrl()), Command::DeleteWordForward),
    ]
}

/// Default key bindings: deleting words, line editing, and the plain arrow, Home and End keys.
pub open spec fn line_and_arrow_bindings() -> Seq<(KeyBinding, Command)> {
    seq![
        (binding(Key::Backspace, ctrl()), Command::DeleteWordBackward),
        (binding(Key::Char('d'), ctrl_shift()), Command::DuplicateLine),
        (binding(Key::Char('/'), ctrl()), Command::ToggleComment),
        (binding(Key::Left, none()), Command::MoveCursor(Movement::Left)),
        (binding(Key::Right, none()), Command::MoveCursor(Movement::Right)),
        (binding(Key::Up, none()), Command::MoveCursor(Movement::Up)),
        (binding(Key::Down, none()), Command::MoveCursor(Movement::Down)),
        (binding(Key::Home, none()), Command::MoveCursor(Movement::LineStart)),
        (binding(Key::End, none()), Command::MoveCursor(Movement::LineEnd)),
    ]
}

/// Default key bindings: word, document and page movement, and finding (first part).
pub open spec fn word_and_page_bindings() -> Seq<(KeyBinding, Command)> {
    seq![
        (binding(Key::Left, ctrl()), Command::MoveCursor(Movement::WordLeft)),
        (binding(Key::Right, ctrl()), Command::MoveCursor(Movement::WordRight)),
        (binding(Key::Home, ctrl()), Command::MoveCursor(Movement::DocumentStart)),
        (binding(Key::End, ctrl()), Command::MoveCursor(Movement::DocumentEnd)),
        (binding(Key::PageUp, none()), Command::PageUp),
        (binding(Key::PageDown, none()), Command::PageDown),
        (binding(Key::Char('g'), ctrl()), Command::Find),
        (binding(Key::Char('l'), ctrl()), Command::Find),
        (binding(Key::Left, shift()), Command::Select(Movement::Left)),
    ]
}

/// Default key bindings: extending the selection.
pub open spec fn selection_bindings() -> Seq<(KeyBinding, Command)> {
    seq![
        (binding(Key::Right, shift()), Command::Select(Movement::Right)),
        (binding(Key::Up, shift()), Command::Select(Movement::Up)),
        (binding(Key::Down, shift()), Command::Select(Movement::Down)),
        (binding(Key::Home, shift()), Command::Select(Movement::LineStart)),
        (binding(Key::End, shift()), Command::Select(Movement::LineEnd)),
        (binding(Key::Left, ctrl_shift()), Command::Select(Movement::WordLeft)),
        (binding(Key::Right, ctrl_shift()), Command::Select(Movement::WordRight)),
        (binding(Key::Home, ctrl_shift()), Command::Select(Movement::DocumentStart)),
        (binding(Key::End, ctrl_shift()), Command::Select(Movement::DocumentEnd)),
    ]
}

/// Default key bindings: finding and replacing, zoom, full screen, a cursor above.
pub open spec fn search_and_view_bindings() -> Seq<(KeyBinding, Command)> {
    seq![
        (binding(Key::Char('f'), ctrl()), Command::Find),
        (binding(Key::F3, none()), Command::FindNext),
        (binding(Key::F3, shift()), Command::FindPrevious),
        (binding(Key::Char('h'), ctrl()), Command::Replace),
        (binding(Key::Char('='), ctrl()), Command::ZoomIn),
        (binding(Key::Char('-'), ctrl()), Command::ZoomOut),
        (binding(Key::Char('0'), ctrl()), Command::ZoomReset),
        (binding(Key::F11, none()), Command::ToggleFullscreen),
        (binding(Key::Up, ctrl_alt()), Command::AddCursorAbove),
    ]
}

/// Default key bindings: a cursor below or at the next occurrence, documents, palettes and terminals.
pub open spec fn cursor_document_and_panel_bindings() -> Seq<(KeyBinding, Command)> {
    seq![
        (binding(Key::Down, ctrl_alt()), Command::AddCursorBelow),
        (binding(Key::Char('d'), alt()), Command::AddCursorAtNextOccurrence),
        (binding(Key::Tab, ctrl()), Command::NextDocument),
        (binding(Key::Tab, ctrl_shift()), Command::PreviousDocument),
        (binding(Key::Char('p'), ctrl_shift()), Command::ShowCommandPalette),
        (binding(Key::Char('p'), ctrl()), Command::ShowFilePicker),
        (binding(Key::Char('`'), ctrl()), Command::TerminalToggle),
        (binding(Key::Char('t'), ctrl_shift()), Command::TerminalNew),
        (binding(Key::Char('w'), ctrl_shift()), Command::TerminalClose),
    ]
}

/// Default key bindings: switching to and clearing terminals.
pub open spec fn terminal_tab_bindings() -> Seq<(KeyBinding, Command)> {
    seq![
        (binding(Key::Char('1'), alt()), Command::TerminalSwitchTo(1usize)),
        (binding(Key::Char('2'), alt()), Command::TerminalSwitchTo(2usize)),
        (binding(Key::Char('3'), alt()), Command::TerminalSwitchTo(3usize)),
        (binding(Key::Char('4'), alt()), Command::TerminalSwitchTo(4usize)),
        (binding(Key::Char('5'), alt()), Command::TerminalSwitchTo(5usize)),
        (binding(Key::Char('k'), ctrl_shift()), Command::TerminalClear),
    ]
}

/// The default key bindings, in the order they are made.
pub open spec fn default_binding_list() -> Seq<(KeyBinding, Command)> {
    file_and_history_bindings() + clipboard_and_deletion_bindings() + line_and_arrow_bindings() + word_and_page_bindings() + selection_bindings() + search_and_view_bindings() + cursor_document_and_panel_bindings() + terminal_tab_bindings()
}

fn default_binding_vec() -> (v: Vec<(KeyBinding, Command)>)
    ensures
        v@ == default_binding_list(),
{
    let v = vec![
        (KeyBinding::new(Key::Char('n'), Modifiers::ctrl()), Command::NewFile),
        (KeyBinding::new(Key::Char('o'), Modifiers::ctrl()), Command::OpenFile),
        (KeyBinding::new(Key::Char('s'), Modifiers::ctrl()), Command::Save),
        (KeyBinding::new(Key::Char('s'), Modifiers::ctrl_shift()), Command::SaveAs),
        (KeyBinding::new(Key::Char('w'), Modifiers::ctrl()), Command::Close),
        (KeyBinding::new(Key::Char('q'), Modifiers::ctrl()), Command::Quit),
        (KeyBinding::new(Key::Char('z'), Modifiers::ctrl()), Command::Undo),
        (KeyBinding::new(Key::Char('y'), Modifiers::ctrl()), Command::Redo),
        (KeyBinding::new(Key::Char('z'), Modifiers::ctrl_shift()), Command::Redo),
        (KeyBinding::new(Key::Char('x'), Modifiers::ctrl()), Command::Cut),
        (KeyBinding::new(Key::Char('c'), Modifiers::ctrl()), Command::Copy),
        (KeyBinding::new(Key::Char('v'), Modifiers::ctrl()), Command::Paste),
        (KeyBinding::new(Key::Char('a'), Modifiers::ctrl()), Command::SelectAll),
        (KeyBinding::new(Key::Delete, Modifiers::none()), Command::Delete),
        (KeyBinding::new(Key::Backspace, Modifiers::none()), Command::DeleteBackward),
        (KeyBinding::new(Key::Char('d'), Modifiers::ctrl()), Command::DeleteLine),
        (KeyBinding::new(Key::Char('k'), Modifiers::ctrl()), Command::DeleteToEndOfLine),
        (KeyBinding::new(Key::Delete, Modifiers::ctrl()), Command::DeleteWordForward),
        (KeyBinding::new(Key::Backspace, Modifiers::ctrl()), Command::DeleteWordBackward),
        (KeyBinding::new(Key::Char('d'), Modifiers::ctrl_shift()), Command::DuplicateLine),
        (KeyBinding::new(Key::Char('/'), Modifiers::ctrl()), Command::ToggleComment),
        (KeyBinding::new(Key::Left, Modifiers::none()), Command::MoveCursor(Movement::Left)),
        (KeyBinding::new(Key::Right, Modifiers::none()), Command::MoveCursor(Movement::Right)),
        (KeyBinding::new(Key::Up, Modifiers::none()), Command::MoveCursor(Movement::Up)),
        (KeyBinding::new(Key::Down, Modifiers::none()), Command::MoveCursor(Movement::Down)),
        (KeyBinding::new(Key::Home, Modifiers::none()), Command::MoveCursor(Movement::LineStart)),
        (KeyBinding::new(Key::End, Modifiers::none()), Command::MoveCursor(Movement::LineEnd)),
        (KeyBinding::new(Key::Left, Modifiers::ctrl()), Command::MoveCursor(Movement::WordLeft)),
        (KeyBinding::new(Key::Right, Modifiers::ctrl()), Command::MoveCursor(Movement::WordRight)),
        (KeyBinding::new(Key::Home, Modifiers::ctrl()), Command::MoveCursor(Movement::DocumentStart)),
        (KeyBinding::new(Key::End, Modifiers::ctrl()), Command::MoveCursor(Movement::DocumentEnd)),
        (KeyBinding::new(Key::PageUp, Modifiers::none()), Command::PageUp),
        (KeyBinding::new(Key::PageDown, Modifiers::none()), Command::PageDown),
        (KeyBinding::new(Key::Char('g'), Modifiers::ctrl()), Command::Find),
        (KeyBinding::new(Key::Char('l'), Modifiers::ctrl()), Command::Find),
        (KeyBinding::new(Key::Left, Modifiers::shift()), Command::Select(Movement::Left)),
        (KeyBinding::new(Key::Right, Modifiers::shift()), Command::Select(Movement::Right)),
        (KeyBinding::new(Key::Up, Modifiers::shift()), Command::Select(Movement::Up)),
        (KeyBinding::new(Key::Down, Modifiers::shift()), Command::Select(Movement::Down)),
        (KeyBinding::new(Key::Home, Modifiers::shift()), Command::Select(Movement::LineStart)),
        (KeyBinding::new(Key::End, Modifiers::shift()), Command::Select(Movement::LineEnd)),
        (KeyBinding::new(Key::Left, Modifiers::ctrl_shift()), Command::Select(Movement::WordLeft)),
        (KeyBinding::new(Key::Right, Modifiers::ctrl_shift()), Command::Select(Movement::WordRight)),
        (KeyBinding::new(Key::Home, Modifiers::ctrl_shift()), Command::Select(Movement::DocumentStart)),
        (KeyBinding::new(Key::End, Modifiers::ctrl_shift()), Command::Select(Movement::DocumentEnd)),
        (KeyBinding::new(Key::Char('f'), Modifiers::ctrl()), Command::Find),
        (KeyBinding::new(Key::F3, Modifiers::none()), Command::FindNext),
        (KeyBinding::new(Key::F3, Modifiers::shift()), Command::FindPrevious),
        (KeyBinding::new(Key::Char('h'), Modifiers::ctrl()), Command::Replace),
        (KeyBinding::new(Key::Char('='), Modifiers::ctrl()), Command::ZoomIn),
        (KeyBinding::new(Key::Char('-'), Modifiers::ctrl()), Command::ZoomOut),
        (KeyBinding::new(Key::Char('0'), Modifiers::ctrl()), Command::ZoomReset),
        (KeyBinding::new(Key::F11, Modifiers::none()), Command::ToggleFullscreen),
        (KeyBinding::new(Key::Up, Modifiers::ctrl_alt()), Command::AddCursorAbove),
        (KeyBinding::new(Key::Down, Modifiers::ctrl_alt()), Command::AddCursorBelow),
        (KeyBinding::new(Key::Char('d'), Modifiers::alt()), Command::AddCursorAtNextOccurrence),
        (KeyBinding::new(Key::Tab, Modifiers::ctrl()), Command::NextDocument),
        (KeyBinding::new(Key::Tab, Modifiers::ctrl_shift()), Command::PreviousDocument),
        (KeyBinding::new(Key::Char('p'), Modifiers::ctrl_shift()), Command::ShowCommandPalette),
        (KeyBinding::new(Key::Char('p'), Modifiers::ctrl()), Command::ShowFilePicker),
        (KeyBinding::new(Key::Char('`'), Modifiers::ctrl()), Command::TerminalToggle),
        (KeyBinding::new(Key::Char('t'), Modifiers::ctrl_shift()), Command::TerminalNew),
        (KeyBinding::new(Key::Char('w'), Modifiers::ctrl_shift()), Command::TerminalClose),
        (KeyBinding::new(Key::Char('1'), Modifiers::alt()), Command::TerminalSwitchTo(1)),
        (KeyBinding::new(Key::Char('2'), Modifiers::alt()), Command::TerminalSwitchTo(2)),
        (KeyBinding::new(Key::Char('3'), Modifiers::alt()), Command::TerminalSwitchTo(3)),
        (KeyBinding::new(Key::Char('4'), Modifiers::alt()), Command::TerminalSwitchTo(4)),
        (KeyBinding::new(Key::Char('5'), Modifiers::alt()), Command::TerminalSwitchTo(5)),
        (KeyBinding::new(Key::Char('k'), Modifiers::ctrl_shift()), Command::TerminalClear),
    ];
    proof {
        assert(v@ =~= default_binding_list());
    }
    v
}

/// Removes every entry for `kb`; returns the command of the last one.
fn take_key(v: &mut Vec<(KeyBinding, Command)>, kb: KeyBinding) -> (r: Option<Command>)
    ensures
        final(v)@ == without_key(old(v)@, kb),
        r == lookup_in(old(v)@, kb),
{
    let ghost o = v@;
    let ghost mut j: int = 0;
    let mut i: usize = 0;
    let mut found: Option<Command> = None;
    proof {
        assert(o.take(0) =~= Seq::<(KeyBinding, Command)>::empty());
        assert(o.skip(0) =~= o);
        assert(v@ =~= without_key(o.take(0), kb) + o.skip(0));
    }
    while i < v.len()
        invariant
            0 <= j <= o.len(),
            v@ == without_key(o.take(j), kb) + o.skip(j),
            i == without_key(o.take(j), kb).len(),
            found == lookup_in(o.take(j), kb),
        decreases o.len() - j,
    {
        proof {
            assert(o.skip(j)[0] == v@[i as int]);
            assert(o.take(j + 1).drop_last() =~= o.take(j));
            assert(o.take(j + 1).last() == o[j]);
            assert(o.skip(j).drop_first() =~= o.skip(j + 1));
        }
        if v[i].0 == kb {
            let (_, c) = v.remove(i);
            found = Some(c);
            proof {
                assert(v@ =~= without_key(o.take(j + 1), kb) + o.skip(j + 1));
            }
        } else {
            i = i + 1;
            proof {
                assert(v@ =~= without_key(o.take(j + 1), kb) + o.skip(j + 1));
            }
        }
        proof {
            j = j + 1;
        }
    }
    proof {
        assert(o.skip(j).len() == 0);
        assert(o.take(j) =~= o);
        assert(v@ =~= without_key(o, kb));
    }
    found
}

/// Maps key bindings to commands.
pub struct KeyMap {
    bindings: Vec<(KeyBinding, Command)>,
}

impl View for KeyMap {
    type V = Seq<(KeyBinding, Command)>;

    closed spec fn view(&self) -> Seq<(KeyBinding, Command)> {
        self.bindings@
    }
}

impl KeyMap {
    /// An empty key map.
    pub fn new() -> (k: Self)
        ensures
            k@ == Seq::<(KeyBinding, Command)>::empty(),
            keys_unique(k@),
            lookups_agree(k@),
    {
        proof {
            lemma_unique_keys_agree(Seq::empty());
        }
        Self { bindings: Vec::new() }
    }

    /// The key map with the default bindings.
    pub fn default_keymap() -> (k: Self)
        ensures
            k@ == bind_all(Seq::empty(), default_binding_list()),
            keys_unique(k@),
            lookups_agree(k@),
    {
        let mut keymap = Self::new();
        keymap.register_default_bindings();
        proof {
            lemma_bind_all_keys_unique(Seq::empty(), default_binding_list());
            lemma_unique_keys_agree(keymap@);
        }
        keymap
    }

    /// Binds a key with modifiers to a command, replacing its former
    /// binding.
    pub fn bind(&mut self, key: Key, modifiers: Modifiers, command: Command)
        ensures
            final(self)@ == bind_entries(old(self)@, binding(key, modifiers), command),
            keys_unique(old(self)@) ==> keys_unique(final(self)@),
            lookups_agree(old(self)@) ==> lookups_agree(final(self)@),
    {
        proof {
            if keys_unique(self@) {
                lemma_bind_keeps_keys_unique(self@, binding(key, modifiers), command, command);
            }
            if lookups_agree(self@) {
                lemma_bind_keeps_lookups_agreeing(self@, binding(key, modifiers), command);
            }
        }
        let kb = KeyBinding::new(key, modifiers);
        let _ = take_key(&mut self.bindings, kb);
        self.bindings.push((kb, command));
    }

    /// Removes the binding of a key with modifiers; returns the command it
    /// was bound to.
    pub fn unbind(&mut self, key: Key, modifiers: Modifiers) -> (r: Option<Command>)
        ensures
            final(self)@ == without_key(old(self)@, binding(key, modifiers)),
            r == lookup_in(old(self)@, binding(key, modifiers)),
            keys_unique(old(self)@) ==> keys_unique(final(self)@),
            lookups_agree(old(self)@) ==> lookups_agree(final(self)@),
    {
        proof {
            if keys_unique(self@) {
                lemma_bind_keeps_keys_unique(self@, binding(key, modifiers), Command::Noop, Command::Noop);
            }
            if lookups_agree(self@) {
                lemma_unbind_keeps_lookups_agreeing(self@, binding(key, modifiers));
            }
        }
        let kb = KeyBinding::new(key, modifiers);
        take_key(&mut self.bindings, kb)
    }

    /// The command bound to a key with modifiers.
    pub fn lookup(&self, key: Key, modifiers: Modifiers) -> (r: Option<&Command>)
        ensures
            r is Some <==> lookup_in(self@, binding(key, modifiers)) is Some,
            r is Some ==> *r->0 == lookup_in(self@, binding(key, modifiers))->0,
    {
        let kb = KeyBinding::new(key, modifiers);
        let mut i: usize = self.bindings.len();
        proof {
            assert(self.bindings@.take(i as int) =~= self.bindings@);
        }
        while i > 0
            invariant
                i <= self.bindings@.len(),
                kb == binding(key, modifiers),
                lookup_in(self.bindings@, kb) == lookup_in(self.bindings@.take(i as int), kb),
            decreases i,
        {
            proof {
                assert(self.bindings@.take(i as int).drop_last() =~= self.bindings@.take(i - 1));
                assert(self.bindings@.take(i as int).last() == self.bindings@[i - 1]);
            }
            if self.bindings[i - 1].0 == kb {
                proof {
                    assert(lookup_in(self.bindings@.take(i as int), kb) == Some(self.bindings@[i - 1].1));
                    assert(self@ == self.bindings@);
                    assert(lookup_in(self@, binding(key, modifiers)) == Some(self.bindings@[i - 1].1));
                }
                return Some(&self.bindings[i - 1].1);
            }
            i = i - 1;
        }
        proof {
            assert(self.bindings@.take(0) =~= Seq::<(KeyBinding, Command)>::empty());
        }
        None
    }

    /// The key bindings of a command, in the order they were made.
    pub fn bindings_for_command(&self, command: &Command) -> (r: Vec<KeyBinding>)
        ensures
            r@ == bindings_of(self@, *command),
    {
        let mut r: Vec<KeyBinding> = Vec::new();
        let mut i: usize = 0;
        proof {
            assert(self.bindings@.take(0) =~= Seq::<(KeyBinding, Command)>::empty());
        }
        while i < self.bindings.len()
            invariant
                i <= self.bindings@.len(),
                r@ == bindings_of(self.bindings@.take(i as int), *command),
            decreases self.bindings@.len() - i,
        {
            proof {
                assert(self.bindings@.take(i + 1).drop_last() =~= self.bindings@.take(i as int));
                assert(self.bindings@.take(i + 1).last() == self.bindings@[i as int]);
            }
            if self.bindings[i].1.same_as(command) {
                r.push(self.bindings[i].0);
            }
            i = i + 1;
        }
        proof {
            assert(self.bindings@.take(i as int) =~= self.bindings@);
        }
        r
    }

    /// All bindings with their commands.
    pub fn all_bindings(&self) -> (r: &[(KeyBinding, Command)])
        ensures
            r@ == self@,
    {
        self.bindings.as_slice()
    }

    fn register_default_bindings(&mut self)
        ensures
            final(self)@ == bind_all(old(self)@, default_binding_list()),
    {
        let mut list = default_binding_vec();
        let ghost full = list@;
        let ghost mut k: int = 0;
        proof {
            assert(full.take(0) =~= Seq::<(KeyBinding, Command)>::empty());
            assert(full.skip(0) =~= full);
        }
        while list.len() > 0
            invariant
                full == default_binding_list(),
                0 <= k <= full.len(),
                list@ == full.skip(k),
                self@ == bind_all(old(self)@, full.take(k)),
            decreases list@.len(),
        {
            proof {
                assert(full.take(k + 1).drop_last() =~= full.take(k));
                assert(full.take(k + 1).last() == full[k]);
                assert(list@[0] == full[k]);
                assert(list@.remove(0) =~= full.skip(k + 1));
            }
            let (kb, c) = list.remove(0);
            self.bind(kb.key, kb.modifiers, c);
            proof {
                k = k + 1;
            }
        }
        proof {
            assert(full.take(k) =~= full);
        }
    }
}

impl Default for KeyMap {
    fn default() -> (k: Self)
        ensures
            k@ == bind_all(Seq::empty(), default_binding_list()),
    {
        Self::default_keymap()
    }
}

/// Removing the entries for one key binding leaves the lookup of every
/// other binding as it was, and the lookup of that one empty.
pub proof fn lemma_lookup_without_key(es: Seq<(KeyBinding, Command)>, kb: KeyBinding, kb2: KeyBinding)
    ensures
        lookup_in(without_key(es, kb), kb2) == (if kb2 == kb { None } else { lookup_in(es, kb2) }),
    decreases es.len(),
{
    if es.len() > 0 {
        lemma_lookup_without_key(es.drop_last(), kb, kb2);
        let w = without_key(es.drop_last(), kb);
        if es.last().0 != kb {
            assert(w.push(es.last()).drop_last() =~= w);
        }
    }
}

/// After a key is bound to a command, looking the key up gives that
/// command, and looking up any other key gives what it gave before.
pub proof fn lemma_lookup_after_bind(es: Seq<(KeyBinding, Command)>, kb: KeyBinding, c: Command, kb2: KeyBinding)
    ensures
        lookup_in(bind_entries(es, kb, c), kb2) == (if kb2 == kb { Some(c) } else { lookup_in(es, kb2) }),
{
    let w = without_key(es, kb);
    assert(w.push((kb, c)).drop_last() =~= w);
    lemma_lookup_without_key(es, kb, kb2);
}

/// After a key is unbound, looking it up gives nothing, and looking up any
/// other key gives what it gave before.
pub proof fn lemma_lookup_after_unbind(es: Seq<(KeyBinding, Command)>, kb: KeyBinding, kb2: KeyBinding)
    ensures
        lookup_in(without_key(es, kb), kb2) == (if kb2 == kb { None } else { lookup_in(es, kb2) }),
{
    lemma_lookup_without_key(es, kb, kb2);
}

/// Every command is the same as itself.
pub proof fn lemma_command_eq_refl(c: Command)
    ensures
        command_eq(c, c),
{
}

/// After a key is bound to a command, the command's bindings are those it
/// had apart from that key, followed by that key.
pub proof fn lemma_bindings_after_bind(es: Seq<(KeyBinding, Command)>, kb: KeyBinding, c: Command)
    ensures
        bindings_of(bind_entries(es, kb, c), c) == bindings_of(without_key(es, kb), c).push(kb),
{
    let w = without_key(es, kb);
    assert(w.push((kb, c)).drop_last() =~= w);
    lemma_command_eq_refl(c);
}

/// No two entries are for the same key binding.
pub open spec fn keys_unique(es: Seq<(KeyBinding, Command)>) -> bool {
    forall|i: int, j: int| 0 <= i < j < es.len() ==> #[trigger] es[i].0 != #[trigger] es[j].0
}

/// The entries left once a key binding's are removed come from the
/// entries, and none is for that binding; they keep keys unique.
proof fn lemma_without_key_keys(es: Seq<(KeyBinding, Command)>, kb: KeyBinding)
    ensures
        forall|i: int| 0 <= i < without_key(es, kb).len() ==> #[trigger] without_key(es, kb)[i].0 != kb
            && exists|j: int| 0 <= j < es.len() && (#[trigger] es[j]).0 == without_key(es, kb)[i].0,
        keys_unique(es) ==> keys_unique(without_key(es, kb)),
    decreases es.len(),
{
    if es.len() > 0 {
        let d = es.drop_last();
        lemma_without_key_keys(d, kb);
        let w = without_key(d, kb);
        assert forall|i: int| 0 <= i < w.len() implies exists|j: int| 0 <= j < es.len() && (#[trigger] es[j]).0 == (#[trigger] w[i]).0 by {
            let j = choose|j: int| 0 <= j < d.len() && d[j].0 == w[i].0;
            assert(es[j] == d[j]);
        }
        if es.last().0 != kb {
            let w2 = w.push(es.last());
            assert forall|i: int| 0 <= i < w2.len() implies #[trigger] w2[i].0 != kb && exists|j: int| 0 <= j < es.len() && (#[trigger] es[j]).0 == w2[i].0 by {
                if i == w.len() {
                    assert(es[es.len() - 1].0 == w2[i].0);
                } else {
                    assert(w2[i] == w[i]);
                }
            }
            if keys_unique(es) {
                assert(keys_unique(d)) by {
                    assert forall|a: int, b: int| 0 <= a < b < d.len() implies #[trigger] d[a].0 != #[trigger] d[b].0 by {
                        assert(d[a] == es[a] && d[b] == es[b]);
                    }
                }
                assert forall|a: int, b: int| 0 <= a < b < w2.len() implies #[trigger] w2[a].0 != #[trigger] w2[b].0 by {
                    if b == w.len() {
                        assert(w2[a] == w[a]);
                        let j = choose|j: int| 0 <= j < d.len() && d[j].0 == w[a].0;
                        assert(d[j] == es[j]);
                    } else {
                        assert(w2[a] == w[a] && w2[b] == w[b]);
                    }
                }
            }
        } else {
            if keys_unique(es) {
                assert forall|a: int, b: int| 0 <= a < b < d.len() implies #[trigger] d[a].0 != #[trigger] d[b].0 by {
                    assert(d[a] == es[a] && d[b] == es[b]);
                }
            }
        }
    }
}

/// The bindings listed for a command are keys of entries.
proof fn lemma_bindings_of_keys(es: Seq<(KeyBinding, Command)>, c: Command, kb: KeyBinding)
    requires
        bindings_of(es, c).contains(kb),
    ensures
        exists|j: int| 0 <= j < es.len() && (#[trigger] es[j]).0 == kb && command_eq(es[j].1, c),
    decreases es.len(),
{
    let d = es.drop_last();
    let r = bindings_of(d, c);
    if command_eq(es.last().1, c) && es.last().0 == kb {
        assert(es[es.len() - 1].0 == kb);
    } else {
        if command_eq(es.last().1, c) {
            let k = choose|k: int| 0 <= k < r.push(es.last().0).len() && r.push(es.last().0)[k] == kb;
            assert(k < r.len());
            assert(r[k] == kb);
        }
        assert(r.contains(kb));
        lemma_bindings_of_keys(d, c, kb);
        let j = choose|j: int| 0 <= j < d.len() && d[j].0 == kb && command_eq(d[j].1, c);
        assert(es[j] == d[j]);
    }
}

/// With one entry per key binding, a binding is listed for a command
/// exactly when looking the binding up gives that command, and no binding
/// is listed twice.
pub proof fn lemma_lookup_agrees_with_bindings(es: Seq<(KeyBinding, Command)>, kb: KeyBinding, c: Command)
    requires
        keys_unique(es),
    ensures
        (lookup_in(es, kb) is Some && command_eq(lookup_in(es, kb)->0, c)) <==> bindings_of(es, c).contains(kb),
        bindings_of(es, c).no_duplicates(),
    decreases es.len(),
{
    if es.len() > 0 {
        let d = es.drop_last();
        let l = es.last();
        assert(keys_unique(d)) by {
            assert forall|a: int, b: int| 0 <= a < b < d.len() implies #[trigger] d[a].0 != #[trigger] d[b].0 by {
                assert(d[a] == es[a] && d[b] == es[b]);
            }
        }
        lemma_lookup_agrees_with_bindings(d, kb, c);
        let r = bindings_of(d, c);
        // the last entry's binding is no key of the others
        assert(!r.contains(l.0)) by {
            if r.contains(l.0) {
                lemma_bindings_of_keys(d, c, l.0);
                let j = choose|j: int| 0 <= j < d.len() && d[j].0 == l.0 && command_eq(d[j].1, c);
                assert(es[j] == d[j]);
                assert(es[es.len() - 1] == l);
            }
        }
        if command_eq(l.1, c) {
            assert(bindings_of(es, c) == r.push(l.0));
            assert forall|x: KeyBinding| r.push(l.0).contains(x) <==> (r.contains(x) || x == l.0) by {
                if r.push(l.0).contains(x) {
                    let k = choose|k: int| 0 <= k < r.push(l.0).len() && r.push(l.0)[k] == x;
                    if k < r.len() {
                        assert(r[k] == x);
                    }
                }
                if r.contains(x) {
                    let k = choose|k: int| 0 <= k < r.len() && r[k] == x;
                    assert(r.push(l.0)[k] == x);
                }
                if x == l.0 {
                    assert(r.push(l.0)[r.len() as int] == x);
                }
            }
            assert(r.push(l.0).no_duplicates()) by {
                assert forall|a: int, b: int| 0 <= a < r.push(l.0).len() && 0 <= b < r.push(l.0).len() && a != b implies r.push(l.0)[a] != r.push(l.0)[b] by {
                    if a == r.len() {
                        assert(r[b] == r.push(l.0)[b]);
                    } else if b == r.len() {
                        assert(r[a] == r.push(l.0)[a]);
                    } else {
                        assert(r[a] == r.push(l.0)[a] && r[b] == r.push(l.0)[b]);
                    }
                }
            }
        }
        if l.0 == kb {
            assert(lookup_in(es, kb) == Some(l.1));
            if !command_eq(l.1, c) {
                assert(!r.contains(kb));
            }
        }
    }
}

/// Binding or unbinding keeps one entry per key binding; after an unbind
/// no command lists the binding.
pub proof fn lemma_bind_keeps_keys_unique(es: Seq<(KeyBinding, Command)>, kb: KeyBinding, c: Command, c2: Command)
    requires
        keys_unique(es),
    ensures
        keys_unique(bind_entries(es, kb, c)),
        keys_unique(without_key(es, kb)),
        !bindings_of(without_key(es, kb), c2).contains(kb),
{
    lemma_without_key_keys(es, kb);
    let w = without_key(es, kb);
    let w2 = w.push((kb, c));
    assert forall|a: int, b: int| 0 <= a < b < w2.len() implies #[trigger] w2[a].0 != #[trigger] w2[b].0 by {
        if b == w.len() {
            assert(w2[a] == w[a]);
        } else {
            assert(w2[a] == w[a] && w2[b] == w[b]);
        }
    }
    if bindings_of(w, c2).contains(kb) {
        lemma_bindings_of_keys(w, c2, kb);
    }
}

/// Binding a list of keys in turn keeps one entry per key binding; so the
/// default key map has one entry per binding.
pub proof fn lemma_bind_all_keys_unique(es: Seq<(KeyBinding, Command)>, list: Seq<(KeyBinding, Command)>)
    requires
        keys_unique(es),
    ensures
        keys_unique(bind_all(es, list)),
    decreases list.len(),
{
    if list.len() > 0 {
        lemma_bind_all_keys_unique(es, list.drop_last());
        lemma_bind_keeps_keys_unique(bind_all(es, list.drop_last()), list.last().0, list.last().1, list.last().1);
    }
}

/// Binding a key keeps a key map's lookups in agreement with its
/// per-command binding lists (with no binding listed twice): after the
/// bind, a binding is listed for a command exactly when looking it up gives
/// that command; the bound key gives the new command and every other key
/// what it gave before.
pub proof fn lemma_bind_keeps_agreement(es: Seq<(KeyBinding, Command)>, kb: KeyBinding, c: Command, kb2: KeyBinding, c2: Command)
    requires
        keys_unique(es),
    ensures
        keys_unique(bind_entries(es, kb, c)),
        ({
            let es2 = bind_entries(es, kb, c);
            &&& (lookup_in(es2, kb2) is Some && command_eq(lookup_in(es2, kb2)->0, c2)) <==> bindings_of(es2, c2).contains(kb2)
            &&& bindings_of(es2, c2).no_duplicates()
            &&& lookup_in(es2, kb2) == (if kb2 == kb { Some(c) } else { lookup_in(es, kb2) })
        }),
{
    lemma_bind_keeps_keys_unique(es, kb, c, c2);
    lemma_lookup_agrees_with_bindings(bind_entries(es, kb, c), kb2, c2);
    lemma_lookup_after_bind(es, kb, c, kb2);
}

/// Unbinding a key keeps the agreement too, and no command lists the key
/// afterwards.
pub proof fn lemma_unbind_keeps_agreement(es: Seq<(KeyBinding, Command)>, kb: KeyBinding, kb2: KeyBinding, c2: Command)
    requires
        keys_unique(es),
    ensures
        keys_unique(without_key(es, kb)),
        ({
            let es2 = without_key(es, kb);
            &&& (lookup_in(es2, kb2) is Some && command_eq(lookup_in(es2, kb2)->0, c2)) <==> bindings_of(es2, c2).contains(kb2)
            &&& bindings_of(es2, c2).no_duplicates()
            &&& !bindings_of(es2, c2).contains(kb)
            &&& lookup_in(es2, kb2) == (if kb2 == kb { None } else { lookup_in(es, kb2) })
        }),
{
    lemma_bind_keeps_keys_unique(es, kb, c2, c2);
    lemma_lookup_agrees_with_bindings(without_key(es, kb), kb2, c2);
    lemma_lookup_after_unbind(es, kb, kb2);
}

/// A key map's entries keep lookups and per-command binding lists in
/// agreement: a binding is listed for a command exactly when looking it up
/// gives that command, and no list holds a binding twice.
pub open spec fn lookups_agree(es: Seq<(KeyBinding, Command)>) -> bool {
    &&& forall|kb: KeyBinding, c: Command|
        (lookup_in(es, kb) is Some && command_eq(#[trigger] lookup_in(es, kb)->0, c)) <==> #[trigger] bindings_of(es, c).contains(kb)
    &&& forall|c: Command| (#[trigger] bindings_of(es, c)).no_duplicates()
}

/// An entry bound to a command lists its binding for the command.
proof fn lemma_entry_listed(es: Seq<(KeyBinding, Command)>, i: int, c: Command)
    requires
        0 <= i < es.len(),
        command_eq(es[i].1, c),
    ensures
        bindings_of(es, c).contains(es[i].0),
    decreases es.len(),
{
    let d = es.drop_last();
    let r = bindings_of(d, c);
    if i == es.len() - 1 {
        assert(bindings_of(es, c) == r.push(es[i].0));
        assert(r.push(es[i].0)[r.len() as int] == es[i].0);
    } else {
        assert(d[i] == es[i]);
        lemma_entry_listed(d, i, c);
        let k = choose|k: int| 0 <= k < r.len() && r[k] == es[i].0;
        if command_eq(es.last().1, c) {
            assert(r.push(es.last().0)[k] == es[i].0);
        }
    }
}

/// Two entries for one binding, both bound to commands the same as `c`,
/// list the binding twice for `c`.
proof fn lemma_two_entries_listed_twice(es: Seq<(KeyBinding, Command)>, i: int, m: int, c: Command)
    requires
        0 <= i < m < es.len(),
        es[i].0 == es[m].0,
        command_eq(es[i].1, c),
        command_eq(es[m].1, c),
    ensures
        !bindings_of(es, c).no_duplicates(),
    decreases es.len(),
{
    let d = es.drop_last();
    let r = bindings_of(d, c);
    if m == es.len() - 1 {
        assert(d[i] == es[i]);
        lemma_entry_listed(d, i, c);
        let k = choose|k: int| 0 <= k < r.len() && r[k] == es[i].0;
        let p = r.push(es[m].0);
        assert(bindings_of(es, c) == p);
        assert(p[k] == p[r.len() as int]);
    } else {
        assert(d[i] == es[i] && d[m] == es[m]);
        lemma_two_entries_listed_twice(d, i, m, c);
        let (a, b) = choose|a: int, b: int| 0 <= a < r.len() && 0 <= b < r.len() && a != b && r[a] == r[b];
        if command_eq(es.last().1, c) {
            let p = r.push(es.last().0);
            assert(p[a] == r[a] && p[b] == r[b]);
        }
    }
}

/// Looking up a binding that some entry has gives the command of a later
/// (or the same) entry for it.
proof fn lemma_lookup_finds_last(es: Seq<(KeyBinding, Command)>, j: int)
    requires
        0 <= j < es.len(),
    ensures
        exists|m: int| j <= m < es.len() && es[m].0 == es[j].0 && lookup_in(es, es[j].0) == Some(#[trigger] es[m].1),
    decreases es.len(),
{
    let last = es.len() - 1;
    if es.last().0 == es[j].0 {
        assert(es[last].0 == es[j].0 && lookup_in(es, es[j].0) == Some(es[last].1));
    } else {
        let d = es.drop_last();
        assert(d[j] == es[j]);
        lemma_lookup_finds_last(d, j);
        let m = choose|m: int| j <= m < d.len() && d[m].0 == d[j].0 && lookup_in(d, d[j].0) == Some(#[trigger] d[m].1);
        assert(d[m] == es[m]);
    }
}

/// Commands that are the same in one order are the same in the other.
proof fn lemma_command_eq_symm(a: Command, b: Command)
    requires
        command_eq(a, b),
    ensures
        command_eq(b, a),
{
}

/// Entries whose lookups agree with their binding lists have one entry
/// per key binding.
pub proof fn lemma_agreement_gives_unique_keys(es: Seq<(KeyBinding, Command)>)
    requires
        lookups_agree(es),
    ensures
        keys_unique(es),
{
    assert forall|i: int, j: int| 0 <= i < j < es.len() implies #[trigger] es[i].0 != #[trigger] es[j].0 by {
        if es[i].0 == es[j].0 {
            let kb = es[i].0;
            let c = es[i].1;
            lemma_command_eq_refl(c);
            lemma_entry_listed(es, i, c);
            assert(bindings_of(es, c).contains(kb));
            lemma_lookup_finds_last(es, j);
            let m = choose|m: int| j <= m < es.len() && es[m].0 == es[j].0 && lookup_in(es, es[j].0) == Some(#[trigger] es[m].1);
            assert(lookup_in(es, kb) is Some && command_eq(lookup_in(es, kb)->0, c));
            assert(command_eq(es[m].1, c));
            lemma_two_entries_listed_twice(es, i, m, c);
            assert(bindings_of(es, c).no_duplicates());
        }
    }
}

/// Entries with one entry per key binding keep lookups and binding lists
/// in agreement.
pub proof fn lemma_unique_keys_agree(es: Seq<(KeyBinding, Command)>)
    requires
        keys_unique(es),
    ensures
        lookups_agree(es),
{
    assert forall|kb: KeyBinding, c: Command|
        (lookup_in(es, kb) is Some && command_eq(#[trigger] lookup_in(es, kb)->0, c)) <==> #[trigger] bindings_of(es, c).contains(kb) by {
        lemma_lookup_agrees_with_bindings(es, kb, c);
    }
    assert forall|c: Command| (#[trigger] bindings_of(es, c)).no_duplicates() by {
        lemma_lookup_agrees_with_bindings(es, arbitrary(), c);
    }
}

/// Binding a key keeps lookups in agreement with the binding lists; the
/// bound key then gives the new command, and every other key what it gave
/// before.
pub proof fn lemma_bind_keeps_lookups_agreeing(es: Seq<(KeyBinding, Command)>, kb: KeyBinding, c: Command)
    requires
        lookups_agree(es),
    ensures
        lookups_agree(bind_entries(es, kb, c)),
        lookup_in(bind_entries(es, kb, c), kb) == Some(c),
        forall|kb2: KeyBinding| kb2 != kb ==> #[trigger] lookup_in(bind_entries(es, kb, c), kb2) == lookup_in(es, kb2),
{
    lemma_agreement_gives_unique_keys(es);
    lemma_bind_keeps_keys_unique(es, kb, c, c);
    lemma_unique_keys_agree(bind_entries(es, kb, c));
    lemma_lookup_after_bind(es, kb, c, kb);
    assert forall|kb2: KeyBinding| kb2 != kb implies #[trigger] lookup_in(bind_entries(es, kb, c), kb2) == lookup_in(es, kb2) by {
        lemma_lookup_after_bind(es, kb, c, kb2);
    }
}

/// Unbinding a key keeps lookups in agreement with the binding lists; the
/// key then gives nothing and no command lists it, and every other key
/// gives what it gave before.
pub proof fn lemma_unbind_keeps_lookups_agreeing(es: Seq<(KeyBinding, Command)>, kb: KeyBinding)
    requires
        lookups_agree(es),
    ensures
        lookups_agree(without_key(es, kb)),
        lookup_in(without_key(es, kb), kb) is None,
        forall|c: Command| !(#[trigger] bindings_of(without_key(es, kb), c)).contains(kb),
        forall|kb2: KeyBinding| kb2 != kb ==> #[trigger] lookup_in(without_key(es, kb), kb2) == lookup_in(es, kb2),
{
    lemma_agreement_gives_unique_keys(es);
    lemma_bind_keeps_keys_unique(es, kb, Command::Noop, Command::Noop);
    lemma_unique_keys_agree(without_key(es, kb));
    lemma_lookup_after_unbind(es, kb, kb);
    assert forall|c: Command| !(#[trigger] bindings_of(without_key(es, kb), c)).contains(kb) by {
        lemma_bind_keeps_keys_unique(es, kb, c, c);
    }
    assert forall|kb2: KeyBinding| kb2 != kb implies #[trigger] lookup_in(without_key(es, kb), kb2) == lookup_in(es, kb2) by {
        lemma_lookup_after_unbind(es, kb, kb2);
    }
}

/// Looking a binding up after a list of bindings was bound in turn gives
/// the command of the list's last entry for it, or, when the list has
/// none, what it gave before.
pub proof fn lemma_lookup_after_bind_all(es: Seq<(KeyBinding, Command)>, list: Seq<(KeyBinding, Command)>, kb: KeyBinding)
    ensures
        lookup_in(bind_all(es, list), kb) == (match lookup_in(list, kb) {
            Some(c) => Some(c),
            None => lookup_in(es, kb),
        }),
    decreases list.len(),
{
    if list.len() > 0 {
        lemma_lookup_after_bind_all(es, list.drop_last(), kb);
        lemma_lookup_after_bind(bind_all(es, list.drop_last()), list.last().0, list.last().1, kb);
    }
}

/// A binding looked up in the default bindings: the last entry for it.
proof fn lemma_default_entry(kb: KeyBinding, c: Command)
    requires
        lookup_in(default_binding_list(), kb) == Some(c),
    ensures
        lookup_in(bind_all(Seq::empty(), default_binding_list()), kb) == Some(c),
{
    lemma_lookup_after_bind_all(Seq::empty(), default_binding_list(), kb);
}

/// Looking a binding up in two lists of entries one after the other: the
/// second list's last entry for it, else the first list's.
pub proof fn lemma_lookup_concat(a: Seq<(KeyBinding, Command)>, b: Seq<(KeyBinding, Command)>, kb: KeyBinding)
    ensures
        #[trigger] lookup_in(a + b, kb) == (match lookup_in(b, kb) {
            Some(c) => Some(c),
            None => lookup_in(a, kb),
        }),
    decreases b.len(),
{
    if b.len() == 0 {
        assert(a + b =~= a);
    } else {
        assert((a + b).drop_last() =~= a + b.drop_last());
        assert((a + b).last() == b.last());
        lemma_lookup_concat(a, b.drop_last(), kb);
    }
}

/// The first of two lookups that finds something.
pub open spec fn found_first(x: Option<Command>, y: Option<Command>) -> Option<Command> {
    if x is Some {
        x
    } else {
        y
    }
}

/// Looking a binding up in the default bindings: in the last group that
/// binds it, and there at its last entry.
pub proof fn lemma_lookup_default_groups(kb: KeyBinding)
    ensures
        lookup_in(default_binding_list(), kb) == found_first(lookup_in(terminal_tab_bindings(), kb),
            found_first(lookup_in(cursor_document_and_panel_bindings(), kb),
            found_first(lookup_in(search_and_view_bindings(), kb),
            found_first(lookup_in(selection_bindings(), kb),
            found_first(lookup_in(word_and_page_bindings(), kb),
            found_first(lookup_in(line_and_arrow_bindings(), kb),
            found_first(lookup_in(clipboard_and_deletion_bindings(), kb),
            lookup_in(file_and_history_bindings(), kb)))))))),
{
    let g1 = file_and_history_bindings();
    let g2 = g1 + clipboard_and_deletion_bindings();
    let g3 = g2 + line_and_arrow_bindings();
    let g4 = g3 + word_and_page_bindings();
    let g5 = g4 + selection_bindings();
    let g6 = g5 + search_and_view_bindings();
    let g7 = g6 + cursor_document_and_panel_bindings();
    lemma_lookup_concat(g1, clipboard_and_deletion_bindings(), kb);
    lemma_lookup_concat(g2, line_and_arrow_bindings(), kb);
    lemma_lookup_concat(g3, word_and_page_bindings(), kb);
    lemma_lookup_concat(g4, selection_bindings(), kb);
    lemma_lookup_concat(g5, search_and_view_bindings(), kb);
    lemma_lookup_concat(g6, cursor_document_and_panel_bindings(), kb);
    lemma_lookup_concat(g7, terminal_tab_bindings(), kb);
}

/// In the default key map, Ctrl+Z undoes.
pub proof fn lemma_default_ctrl_z_undoes()
    ensures
        lookup_in(bind_all(Seq::empty(), default_binding_list()), binding(Key::Char('z'), ctrl())) == Some(Command::Undo),
{
    lemma_default_ctrl_z_undoes_in_list();
    lemma_default_entry(binding(Key::Char('z'), ctrl()), Command::Undo);
}

proof fn lemma_default_ctrl_z_undoes_in_list()
    ensures
        lookup_in(default_binding_list(), binding(Key::Char('z'), ctrl())) == Some(Command::Undo),
{
    lemma_lookup_default_groups(binding(Key::Char('z'), ctrl()));
    lemma_default_ctrl_z_undoes_in_groups();
}

#[verifier::rlimit(50)]
proof fn lemma_default_ctrl_z_undoes_in_groups()
    ensures
        found_first(lookup_in(terminal_tab_bindings(), binding(Key::Char('z'), ctrl())),
            found_first(lookup_in(cursor_document_and_panel_bindings(), binding(Key::Char('z'), ctrl())),
            found_first(lookup_in(search_and_view_bindings(), binding(Key::Char('z'), ctrl())),
            found_first(lookup_in(selection_bindings(), binding(Key::Char('z'), ctrl())),
            found_first(lookup_in(word_and_page_bindings(), binding(Key::Char('z'), ctrl())),
            found_first(lookup_in(line_and_arrow_bindings(), binding(Key::Char('z'), ctrl())),
            found_first(lookup_in(clipboard_and_deletion_bindings(), binding(Key::Char('z'), ctrl())),
            lookup_in(file_and_history_bindings(), binding(Key::Char('z'), ctrl()))))))))) == Some(Command::Undo),
{
    reveal_with_fuel(lookup_in, 10);
}

/// In the default key map, Ctrl+Y redoes.
pub proof fn lemma_default_ctrl_y_redoes()
    ensures
        lookup_in(bind_all(Seq::empty(), default_binding_list()), binding(Key::Char('y'), ctrl())) == Some(Command::Redo),
{
    lemma_default_ctrl_y_redoes_in_list();
    lemma_default_entry(binding(Key::Char('y'), ctrl()), Command::Redo);
}

proof fn lemma_default_ctrl_y_redoes_in_list()
    ensures
        lookup_in(default_binding_list(), binding(Key::Char('y'), ctrl())) == Some(Command::Redo),
{
    lemma_lookup_default_groups(binding(Key::Char('y'), ctrl()));
    lemma_default_ctrl_y_redoes_in_groups();
}

#[verifier::rlimit(50)]
proof fn lemma_default_ctrl_y_redoes_in_groups()
    ensures
        found_first(lookup_in(terminal_tab_bindings(), binding(Key::Char('y'), ctrl())),
            found_first(lookup_in(cursor_document_and_panel_bindings(), binding(Key::Char('y'), ctrl())),
            found_first(lookup_in(search_and_view_bindings(), binding(Key::Char('y'), ctrl())),
            found_first(lookup_in(selection_bindings(), binding(Key::Char('y'), ctrl())),
            found_first(lookup_in(word_and_page_bindings(), binding(Key::Char('y'), ctrl())),
            found_first(lookup_in(line_and_arrow_bindings(), binding(Key::Char('y'), ctrl())),
            found_first(lookup_in(clipboard_and_deletion_bindings(), binding(Key::Char('y'), ctrl())),
            lookup_in(file_and_history_bindings(), binding(Key::Char('y'), ctrl()))))))))) == Some(Command::Redo),
{
    reveal_with_fuel(lookup_in, 10);
}

/// In the default key map, Ctrl+Shift+Z redoes.
pub proof fn lemma_default_ctrl_shift_z_redoes()
    ensures
        lookup_in(bind_all(Seq::empty(), default_binding_list()), binding(Key::Char('z'), ctrl_shift())) == Some(Command::Redo),
{
    lemma_default_ctrl_shift_z_redoes_in_list();
    lemma_default_entry(binding(Key::Char('z'), ctrl_shift()), Command::Redo);
}

proof fn lemma_default_ctrl_shift_z_redoes_in_list()
    ensures
        lookup_in(default_binding_list(), binding(Key::Char('z'), ctrl_shift())) == Some(Command::Redo),
{
    lemma_lookup_default_groups(binding(Key::Char('z'), ctrl_shift()));
    lemma_default_ctrl_shift_z_redoes_in_groups();
}

#[verifier::rlimit(50)]
proof fn lemma_default_ctrl_shift_z_redoes_in_groups()
    ensures
        found_first(lookup_in(terminal_tab_bindings(), binding(Key::Char('z'), ctrl_shift())),
            found_first(lookup_in(cursor_document_and_panel_bindings(), binding(Key::Char('z'), ctrl_shift())),
            found_first(lookup_in(search_and_view_bindings(), binding(Key::Char('z'), ctrl_shift())),
            found_first(lookup_in(selection_bindings(), binding(Key::Char('z'), ctrl_shift())),
            found_first(lookup_in(word_and_page_bindings(), binding(Key::Char('z'), ctrl_shift())),
            found_first(lookup_in(line_and_arrow_bindings(), binding(Key::Char('z'), ctrl_shift())),
            found_first(lookup_in(clipboard_and_deletion_bindings(), binding(Key::Char('z'), ctrl_shift())),
            lookup_in(file_and_history_bindings(), binding(Key::Char('z'), ctrl_shift()))))))))) == Some(Command::Redo),
{
    reveal_with_fuel(lookup_in, 10);
}

/// In the default key map, Ctrl+S saves.
pub proof fn lemma_default_ctrl_s_saves()
    ensures
        lookup_in(bind_all(Seq::empty(), default_binding_list()), binding(Key::Char('s'), ctrl())) == Some(Command::Save),
{
    lemma_default_ctrl_s_saves_in_list();
    lemma_default_entry(binding(Key::Char('s'), ctrl()), Command::Save);
}

proof fn lemma_default_ctrl_s_saves_in_list()
    ensures
        lookup_in(default_binding_list(), binding(Key::Char('s'), ctrl())) == Some(Command::Save),
{
    lemma_lookup_default_groups(binding(Key::Char('s'), ctrl()));
    lemma_default_ctrl_s_saves_in_groups();
}

#[verifier::rlimit(50)]
proof fn lemma_default_ctrl_s_saves_in_groups()
    ensures
        found_first(lookup_in(terminal_tab_bindings(), binding(Key::Char('s'), ctrl())),
            found_first(lookup_in(cursor_document_and_panel_bindings(), binding(Key::Char('s'), ctrl())),
            found_first(lookup_in(search_and_view_bindings(), binding(Key::Char('s'), ctrl())),
            found_first(lookup_in(selection_bindings(), binding(Key::Char('s'), ctrl())),
            found_first(lookup_in(word_and_page_bindings(), binding(Key::Char('s'), ctrl())),
            found_first(lookup_in(line_and_arrow_bindings(), binding(Key::Char('s'), ctrl())),
            found_first(lookup_in(clipboard_and_deletion_bindings(), binding(Key::Char('s'), ctrl())),
            lookup_in(file_and_history_bindings(), binding(Key::Char('s'), ctrl()))))))))) == Some(Command::Save),
{
    reveal_with_fuel(lookup_in, 10);
}

/// In the default key map, Ctrl+X cuts.
pub proof fn lemma_default_ctrl_x_cuts()
    ensures
        lookup_in(bind_all(Seq::empty(), default_binding_list()), binding(Key::Char('x'), ctrl())) == Some(Command::Cut),
{
    lemma_default_ctrl_x_cuts_in_list();
    lemma_default_entry(binding(Key::Char('x'), ctrl()), Command::Cut);
}

proof fn lemma_default_ctrl_x_cuts_in_list()
    ensures
        lookup_in(default_binding_list(), binding(Key::Char('x'), ctrl())) == Some(Command::Cut),
{
    lemma_lookup_default_groups(binding(Key::Char('x'), ctrl()));
    lemma_default_ctrl_x_cuts_in_groups();
}

#[verifier::rlimit(50)]
proof fn lemma_default_ctrl_x_cuts_in_groups()
    ensures
        found_first(lookup_in(terminal_tab_bindings(), binding(Key::Char('x'), ctrl())),
            found_first(lookup_in(cursor_document_and_panel_bindings(), binding(Key::Char('x'), ctrl())),
            found_first(lookup_in(search_and_view_bindings(), binding(Key::Char('x'), ctrl())),
            found_first(lookup_in(selection_bindings(), binding(Key::Char('x'), ctrl())),
            found_first(lookup_in(word_and_page_bindings(), binding(Key::Char('x'), ctrl())),
            found_first(lookup_in(line_and_arrow_bindings(), binding(Key::Char('x'), ctrl())),
            found_first(lookup_in(clipboard_and_deletion_bindings(), binding(Key::Char('x'), ctrl())),
            lookup_in(file_and_history_bindings(), binding(Key::Char('x'), ctrl()))))))))) == Some(Command::Cut),
{
    reveal_with_fuel(lookup_in, 10);
}

/// In the default key map, Ctrl+C copies.
pub proof fn lemma_default_ctrl_c_copies()
    ensures
        lookup_in(bind_all(Seq::empty(), default_binding_list()), binding(Key::Char('c'), ctrl())) == Some(Command::Copy),
{
    lemma_default_ctrl_c_copies_in_list();
    lemma_default_entry(binding(Key::Char('c'), ctrl()), Command::Copy);
}

proof fn lemma_default_ctrl_c_copies_in_list()
    ensures
        lookup_in(default_binding_list(), binding(Key::Char('c'), ctrl())) == Some(Command::Copy),
{
    lemma_lookup_default_groups(binding(Key::Char('c'), ctrl()));
    lemma_default_ctrl_c_copies_in_groups();
}

#[verifier::rlimit(50)]
proof fn lemma_default_ctrl_c_copies_in_groups()
    ensures
        found_first(lookup_in(terminal_tab_bindings(), binding(Key::Char('c'), ctrl())),
            found_first(lookup_in(cursor_document_and_panel_bindings(), binding(Key::Char('c'), ctrl())),
            found_first(lookup_in(search_and_view_bindings(), binding(Key::Char('c'), ctrl())),
            found_first(lookup_in(selection_bindings(), binding(Key::Char('c'), ctrl())),
            found_first(lookup_in(word_and_page_bindings(), binding(Key::Char('c'), ctrl())),
            found_first(lookup_in(line_and_arrow_bindings(), binding(Key::Char('c'), ctrl())),
            found_first(lookup_in(clipboard_and_deletion_bindings(), binding(Key::Char('c'), ctrl())),
            lookup_in(file_and_history_bindings(), binding(Key::Char('c'), ctrl()))))))))) == Some(Command::Copy),
{
    reveal_with_fuel(lookup_in, 10);
}

/// In the default key map, Ctrl+V pastes.
pub proof fn lemma_default_ctrl_v_pastes()
    ensures
        lookup_in(bind_all(Seq::empty(), default_binding_list()), binding(Key::Char('v'), ctrl())) == Some(Command::Paste),
{
    lemma_default_ctrl_v_pastes_in_list();
    lemma_default_entry(binding(Key::Char('v'), ctrl()), Command::Paste);
}

proof fn lemma_default_ctrl_v_pastes_in_list()
    ensures
        lookup_in(default_binding_list(), binding(Key::Char('v'), ctrl())) == Some(Command::Paste),
{
    lemma_lookup_default_groups(binding(Key::Char('v'), ctrl()));
    lemma_default_ctrl_v_pastes_in_groups();
}

#[verifier::rlimit(50)]
proof fn lemma_default_ctrl_v_pastes_in_groups()
    ensures
        found_first(lookup_in(terminal_tab_bindings(), binding(Key::Char('v'), ctrl())),
            found_first(lookup_in(cursor_document_and_panel_bindings(), binding(Key::Char('v'), ctrl())),
            found_first(lookup_in(search_and_view_bindings(), binding(Key::Char('v'), ctrl())),
            found_first(lookup_in(selection_bindings(), binding(Key::Char('v'), ctrl())),
            found_first(lookup_in(word_and_page_bindings(), binding(Key::Char('v'), ctrl())),
            found_first(lookup_in(line_and_arrow_bindings(), binding(Key::Char('v'), ctrl())),
            found_first(lookup_in(clipboard_and_deletion_bindings(), binding(Key::Char('v'), ctrl())),
            lookup_in(file_and_history_bindings(), binding(Key::Char('v'), ctrl()))))))))) == Some(Command::Paste),
{
    reveal_with_fuel(lookup_in, 10);
}

/// In the default key map, Ctrl+A selects all.
pub proof fn lemma_default_ctrl_a_selects_all()
    ensures
        lookup_in(bind_all(Seq::empty(), default_binding_list()), binding(Key::Char('a'), ctrl())) == Some(Command::SelectAll),
{
    lemma_default_ctrl_a_selects_all_in_list();
    lemma_default_entry(binding(Key::Char('a'), ctrl()), Command::SelectAll);
}

proof fn lemma_default_ctrl_a_selects_all_in_list()
    ensures
        lookup_in(default_binding_list(), binding(Key::Char('a'), ctrl())) == Some(Command::SelectAll),
{
    lemma_lookup_default_groups(binding(Key::Char('a'), ctrl()));
    lemma_default_ctrl_a_selects_all_in_groups();
}

#[verifier::rlimit(50)]
proof fn lemma_default_ctrl_a_selects_all_in_groups()
    ensures
        found_first(lookup_in(terminal_tab_bindings(), binding(Key::Char('a'), ctrl())),
            found_first(lookup_in(cursor_document_and_panel_bindings(), binding(Key::Char('a'), ctrl())),
            found_first(lookup_in(search_and_view_bindings(), binding(Key::Char('a'), ctrl())),
            found_first(lookup_in(selection_bindings(), binding(Key::Char('a'), ctrl())),
            found_first(lookup_in(word_and_page_bindings(), binding(Key::Char('a'), ctrl())),
            found_first(lookup_in(line_and_arrow_bindings(), binding(Key::Char('a'), ctrl())),
            found_first(lookup_in(clipboard_and_deletion_bindings(), binding(Key::Char('a'), ctrl())),
            lookup_in(file_and_history_bindings(), binding(Key::Char('a'), ctrl()))))))))) == Some(Command::SelectAll),
{
    reveal_with_fuel(lookup_in, 10);
}

/// In the default key map, the left arrow moves the cursor left.
pub proof fn lemma_default_left_moves_left()
    ensures
        lookup_in(bind_all(Seq::empty(), default_binding_list()), binding(Key::Left, none())) == Some(Command::MoveCursor(Movement::Left)),
{
    lemma_default_left_moves_left_in_list();
    lemma_default_entry(binding(Key::Left, none()), Command::MoveCursor(Movement::Left));
}

proof fn lemma_default_left_moves_left_in_list()
    ensures
        lookup_in(default_binding_list(), binding(Key::Left, none())) == Some(Command::MoveCursor(Movement::Left)),
{
    lemma_lookup_default_groups(binding(Key::Left, none()));
    lemma_default_left_moves_left_in_groups();
}

#[verifier::rlimit(50)]
proof fn lemma_default_left_moves_left_in_groups()
    ensures
        found_first(lookup_in(terminal_tab_bindings(), binding(Key::Left, none())),
            found_first(lookup_in(cursor_document_and_panel_bindings(), binding(Key::Left, none())),
            found_first(lookup_in(search_and_view_bindings(), binding(Key::Left, none())),
            found_first(lookup_in(selection_bindings(), binding(Key::Left, none())),
            found_first(lookup_in(word_and_page_bindings(), binding(Key::Left, none())),
            found_first(lookup_in(line_and_arrow_bindings(), binding(Key::Left, none())),
            found_first(lookup_in(clipboard_and_deletion_bindings(), binding(Key::Left, none())),
            lookup_in(file_and_history_bindings(), binding(Key::Left, none()))))))))) == Some(Command::MoveCursor(Movement::Left)),
{
    reveal_with_fuel(lookup_in, 10);
}

/// In the default key map, the right arrow moves the cursor right.
pub proof fn lemma_default_right_moves_right()
    ensures
        lookup_in(bind_all(Seq::empty(), default_binding_list()), binding(Key::Right, none())) == Some(Command::MoveCursor(Movement::Right)),
{
    lemma_default_right_moves_right_in_list();
    lemma_default_entry(binding(Key::Right, none()), Command::MoveCursor(Movement::Right));
}

proof fn lemma_default_right_moves_right_in_list()
    ensures
        lookup_in(default_binding_list(), binding(Key::Right, none())) == Some(Command::MoveCursor(Movement::Right)),
{
    lemma_lookup_default_groups(binding(Key::Right, none()));
    lemma_default_right_moves_right_in_groups();
}

#[verifier::rlimit(50)]
proof fn lemma_default_right_moves_right_in_groups()
    ensures
        found_first(lookup_in(terminal_tab_bindings(), binding(Key::Right, none())),
            found_first(lookup_in(cursor_document_and_panel_bindings(), binding(Key::Right, none())),
            found_first(lookup_in(search_and_view_bindings(), binding(Key::Right, none())),
            found_first(lookup_in(selection_bindings(), binding(Key::Right, none())),
            found_first(lookup_in(word_and_page_bindings(), binding(Key::Right, none())),
            found_first(lookup_in(line_and_arrow_bindings(), binding(Key::Right, none())),
            found_first(lookup_in(clipboard_and_deletion_bindings(), binding(Key::Right, none())),
            lookup_in(file_and_history_bindings(), binding(Key::Right, none()))))))))) == Some(Command::MoveCursor(Movement::Right)),
{
    reveal_with_fuel(lookup_in, 10);
}

/// In the default key map, Backspace deletes backward.
pub proof fn lemma_default_backspace_deletes_backward()
    ensures
        lookup_in(bind_all(Seq::empty(), default_binding_list()), binding(Key::Backspace, none())) == Some(Command::DeleteBackward),
{
    lemma_default_backspace_deletes_backward_in_list();
    lemma_default_entry(binding(Key::Backspace, none()), Command::DeleteBackward);
}

proof fn lemma_default_backspace_deletes_backward_in_list()
    ensures
        lookup_in(default_binding_list(), binding(Key::Backspace, none())) == Some(Command::DeleteBackward),
{
    lemma_lookup_default_groups(binding(Key::Backspace, none()));
    lemma_default_backspace_deletes_backward_in_groups();
}

#[verifier::rlimit(50)]
proof fn lemma_default_backspace_deletes_backward_in_groups()
    ensures
        found_first(lookup_in(terminal_tab_bindings(), binding(Key::Backspace, none())),
            found_first(lookup_in(cursor_document_and_panel_bindings(), binding(Key::Backspace, none())),
            found_first(lookup_in(search_and_view_bindings(), binding(Key::Backspace, none())),
            found_first(lookup_in(selection_bindings(), binding(Key::Backspace, none())),
            found_first(lookup_in(word_and_page_bindings(), binding(Key::Backspace, none())),
            found_first(lookup_in(line_and_arrow_bindings(), binding(Key::Backspace, none())),
            found_first(lookup_in(clipboard_and_deletion_bindings(), binding(Key::Backspace, none())),
            lookup_in(file_and_history_bindings(), binding(Key::Backspace, none()))))))))) == Some(Command::DeleteBackward),
{
    reveal_with_fuel(lookup_in, 10);
}

} // verus!

