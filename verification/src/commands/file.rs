//! File commands' data: errors, metadata, encodings and auto-save settings.

use vstd::prelude::*;
use std::path::PathBuf;
use std::time::SystemTime;
use crate::commands::LineEndingStyle;
use crate::text::{concat, starts_with, u64_to_string, usize_decimal};

verus! {

#[verifier::external_type_specification]
#[verifier::external_body]
pub struct ExSystemTime(std::time::SystemTime);

/// Errors of file operations.
#[derive(Debug, Clone, PartialEq, Eq)]
pub enum FileError {
    /// File not found
    NotFound(PathBuf),
    /// Permission denied
    PermissionDenied(PathBuf),
    /// The path is a directory
    IsDirectory(PathBuf),
    /// I/O error
    IoError(String),
    /// Encoding error
    EncodingError(String),
    /// The file is too large
    FileTooLarge {
        /// The file
        path: PathBuf,
        /// Its size in bytes
        size: u64,
        /// The largest size allowed
        max: u64,
    },
    /// The file has unsaved changes
    UnsavedChanges(PathBuf),
    /// No file is associated with the buffer
    NoAssociatedFile,
    /// Invalid file path
    InvalidPath(String),
}

/// The text of a path as `Path::display` renders it.
pub uninterp spec fn path_text(p: PathBuf) -> Seq<char>;

/// `Path::display`, rendered to a string: the result is the name
/// [`path_text`] of the path.
#[verifier::external_body]
pub(crate) fn path_display(p: &PathBuf) -> (r: String)
    ensures
        r@ == path_text(*p),
{
    p.display().to_string()
}

/// The message of a file error: a fixed text, then what it is about.
pub open spec fn file_error_message_prefix(e: FileError) -> Seq<char> {
    match e {
        FileError::NotFound(_) => "File not found: "@,
        FileError::PermissionDenied(_) => "Permission denied: "@,
        FileError::IsDirectory(_) => "Is a directory: "@,
        FileError::IoError(_) => "I/O error: "@,
        FileError::EncodingError(_) => "Encoding error: "@,
        FileError::FileTooLarge { .. } => "File too large: "@,
        FileError::UnsavedChanges(_) => "File has unsaved changes: "@,
        FileError::NoAssociatedFile => "No file associated with this buffer"@,
        FileError::InvalidPath(_) => "Invalid path: "@,
    }
}

impl FileError {
    /// The error's message. Messages about a path end with the path as the
    /// platform displays it; a too-large file's message also gives its
    /// size and the limit in bytes.
    pub fn to_display_string(&self) -> (s: String)
        ensures
            starts_with(s@, file_error_message_prefix(*self)),
            (match *self {
                FileError::IoError(m) => s@ == "I/O error: "@ + m@,
                FileError::EncodingError(m) => s@ == "Encoding error: "@ + m@,
                FileError::InvalidPath(m) => s@ == "Invalid path: "@ + m@,
                FileError::NoAssociatedFile => s@ == "No file associated with this buffer"@,
                FileError::NotFound(p) => s@ == "File not found: "@ + path_text(p),
                FileError::PermissionDenied(p) => s@ == "Permission denied: "@ + path_text(p),
                FileError::IsDirectory(p) => s@ == "Is a directory: "@ + path_text(p),
                FileError::UnsavedChanges(p) => s@ == "File has unsaved changes: "@ + path_text(p),
                FileError::FileTooLarge { path, size, max } => s@ == "File too large: "@ + path_text(path) + " ("@
                    + usize_decimal(size as nat) + " bytes, max "@ + usize_decimal(max as nat) + " bytes)"@,
            }),
    {
        let r = match self {
            FileError::NotFound(path) => concat("File not found: ", path_display(path).as_str()),
            FileError::PermissionDenied(path) => concat("Permission denied: ", path_display(path).as_str()),
            FileError::IsDirectory(path) => concat("Is a directory: ", path_display(path).as_str()),
            FileError::IoError(msg) => concat("I/O error: ", msg.as_str()),
            FileError::EncodingError(msg) => concat("Encoding error: ", msg.as_str()),
            FileError::FileTooLarge { path, size, max } => {
                let s1 = concat("File too large: ", path_display(path).as_str());
                let s2 = concat(s1.as_str(), " (");
                let s3 = concat(s2.as_str(), u64_to_string(*size).as_str());
                let s4 = concat(s3.as_str(), " bytes, max ");
                let s5 = concat(s4.as_str(), u64_to_string(*max).as_str());
                let s6 = concat(s5.as_str(), " bytes)");
                proof {
                    assert(s6@.subrange(0, "File too large: "@.len() as int) =~= s1@.subrange(0, "File too large: "@.len() as int));
                }
                s6
            },
            FileError::UnsavedChanges(path) => concat("File has unsaved changes: ", path_display(path).as_str()),
            FileError::NoAssociatedFile => "No file associated with this buffer".to_owned(),
            FileError::InvalidPath(path) => concat("Invalid path: ", path.as_str()),
        };
        proof {
            let p = file_error_message_prefix(*self);
            if r@.len() >= p.len() {
                assert(r@.subrange(0, p.len() as int) =~= p);
            }
        }
        r
    }
}

/// File metadata.
#[derive(Debug, Clone)]
pub struct FileMetadata {
    /// Size in bytes
    pub size: u64,
    /// Modification time
    pub modified: Option<SystemTime>,
    /// Creation time
    pub created: Option<SystemTime>,
    /// Whether the file is read-only
    pub read_only: bool,
}

/// Text encodings of files.
#[derive(Debug, Clone, Copy, PartialEq, Eq, Structural)]
pub enum FileEncoding {
    /// UTF-8
    Utf8,
    /// UTF-16, little endian
    Utf16Le,
    /// UTF-16, big endian
    Utf16Be,
    /// Latin-1 (ISO-8859-1)
    Latin1,
    /// ASCII
    Ascii,
}

/// `str::from_utf8(..).is_ok()`: whether the bytes are valid UTF-8.
#[verifier::external_body]
fn utf8_is_valid(bytes: &[u8]) -> (b: bool)
    ensures
        b == vstd::utf8::valid_utf8(bytes@),
{
    std::str::from_utf8(bytes).is_ok()
}

/// The encoding detected from a file's bytes: a UTF-8 byte order mark,
/// then a UTF-16 one (little endian first); then valid UTF-8; then all
/// bytes below 128 (ASCII); else Latin-1.
pub open spec fn detected_encoding(b: Seq<u8>) -> FileEncoding {
    if b.len() >= 3 && b[0] == 0xEF && b[1] == 0xBB && b[2] == 0xBF {
        FileEncoding::Utf8
    } else if b.len() >= 2 && b[0] == 0xFF && b[1] == 0xFE {
        FileEncoding::Utf16Le
    } else if b.len() >= 2 && b[0] == 0xFE && b[1] == 0xFF {
        FileEncoding::Utf16Be
    } else if vstd::utf8::valid_utf8(b) {
        FileEncoding::Utf8
    } else if forall|i: int| 0 <= i < b.len() ==> #[trigger] b[i] < 128 {
        FileEncoding::Ascii
    } else {
        FileEncoding::Latin1
    }
}

impl FileEncoding {
    /// The encoding's name.
    pub fn name(&self) -> (s: &'static str)
        ensures
            s@ == (match *self {
                FileEncoding::Utf8 => "UTF-8"@,
                FileEncoding::Utf16Le => "UTF-16 LE"@,
                FileEncoding::Utf16Be => "UTF-16 BE"@,
                FileEncoding::Latin1 => "Latin-1"@,
                FileEncoding::Ascii => "ASCII"@,
            }),
    {
        match self {
            FileEncoding::Utf8 => "UTF-8",
            FileEncoding::Utf16Le => "UTF-16 LE",
            FileEncoding::Utf16Be => "UTF-16 BE",
            FileEncoding::Latin1 => "Latin-1",
            FileEncoding::Ascii => "ASCII",
        }
    }

    /// The encoding of a file's content (see [`detected_encoding`]).
    pub fn detect(content: &[u8]) -> (e: Self)
        ensures
            e == detected_encoding(content@),
    {
        if content.len() >= 3 && content[0] == 0xEF && content[1] == 0xBB && content[2] == 0xBF {
            return FileEncoding::Utf8;
        }
        if content.len() >= 2 {
            if content[0] == 0xFF && content[1] == 0xFE {
                return FileEncoding::Utf16Le;
            }
            if content[0] == 0xFE && content[1] == 0xFF {
                return FileEncoding::Utf16Be;
            }
        }
        if utf8_is_valid(content) {
            return FileEncoding::Utf8;
        }
        let mut i: usize = 0;
        while i < content.len()
            invariant
                i <= content@.len(),
                forall|j: int| 0 <= j < i ==> #[trigger] content@[j] < 128,
                !vstd::utf8::valid_utf8(content@),
                !(content@.len() >= 3 && content@[0] == 0xEF && content@[1] == 0xBB && content@[2] == 0xBF),
                !(content@.len() >= 2 && content@[0] == 0xFF && content@[1] == 0xFE),
                !(content@.len() >= 2 && content@[0] == 0xFE && content@[1] == 0xFF),
            decreases content@.len() - i,
        {
            if content[i] >= 128 {
                return FileEncoding::Latin1;
            }
            i = i + 1;
        }
        FileEncoding::Ascii
    }
}

/// The name of a line ending style shown to the user.
pub open spec fn style_name(style: LineEndingStyle) -> Seq<char> {
    match style {
        LineEndingStyle::Lf => "LF (Unix)"@,
        LineEndingStyle::CrLf => "CRLF (Windows)"@,
        LineEndingStyle::Cr => "CR (Classic Mac)"@,
    }
}

/// The message shown after the line ending style is set.
pub fn line_ending_message(style: LineEndingStyle) -> (s: String)
    ensures
        s@ == "Line ending set to "@ + style_name(style),
{
    let name = match style {
        LineEndingStyle::Lf => "LF (Unix)",
        LineEndingStyle::CrLf => "CRLF (Windows)",
        LineEndingStyle::Cr => "CR (Classic Mac)",
    };
    concat("Line ending set to ", name)
}

/// Auto-save settings.
#[derive(Debug, Clone)]
pub struct AutoSaveConfig {
    /// Whether auto-save is on
    pub enabled: bool,
    /// Interval in seconds
    pub interval_seconds: u64,
    /// Save when the window loses focus
    pub on_focus_loss: bool,
    /// Save when the window closes
    pub on_window_close: bool,
}

impl Default for AutoSaveConfig {
    fn default() -> (c: Self)
        ensures
            !c.enabled,
            c.interval_seconds == 30,
            c.on_focus_loss,
            c.on_window_close,
    {
        Self { enabled: false, interval_seconds: 30, on_focus_loss: true, on_window_close: true }
    }
}


/// What the file commands need of the editor, in the operations that
/// complete at once (those that wait on the user or the disk belong to the
/// application around the library).
///
/// The contract of the line ending and message operations is stated over
/// the views declared first: the query returns its view, and the context
/// after each change is the one that change names.
///
/// An implementation gives each view its meaning; left to the default, a
/// view is some value that nothing here can know.
pub trait FileContext: Sized {
    /// The current document's line-ending style.
    closed spec fn line_ending(&self) -> LineEndingStyle {
        arbitrary()
    }

    /// The context once the current document's line-ending style is set.
    closed spec fn with_line_ending(&self, style: LineEndingStyle) -> Self {
        arbitrary()
    }

    /// The context once an error message is shown.
    closed spec fn with_error_shown(&self, message: Seq<char>) -> Self {
        arbitrary()
    }

    /// The context once a success message is shown.
    closed spec fn with_success_shown(&self, message: Seq<char>) -> Self {
        arbitrary()
    }

    /// The context once an empty document is created.
    closed spec fn with_new_document(&self) -> Self {
        arbitrary()
    }

    /// The context once the current document is closed, and the outcome.
    closed spec fn after_close(&self) -> (Self, Result<(), FileError>) {
        arbitrary()
    }

    /// The context once all documents are closed, and the outcome.
    closed spec fn after_close_all(&self) -> (Self, Result<(), FileError>) {
        arbitrary()
    }

    /// Whether the current document has unsaved changes.
    closed spec fn unsaved(&self) -> bool {
        arbitrary()
    }

    /// The current document's path.
    closed spec fn file_path(&self) -> Option<PathBuf> {
        arbitrary()
    }

    /// Creates an empty document.
    fn new_document(&mut self)
        ensures
            *final(self) == old(self).with_new_document(),
    ;

    /// Closes the current document.
    fn close_document(&mut self) -> (r: Result<(), FileError>)
        ensures
            (*final(self), r) == old(self).after_close(),
    ;

    /// Closes all documents.
    fn close_all_documents(&mut self) -> (r: Result<(), FileError>)
        ensures
            (*final(self), r) == old(self).after_close_all(),
    ;

    /// Whether the current document has unsaved changes.
    fn has_unsaved_changes(&self) -> (b: bool)
        ensures
            b == self.unsaved(),
    ;

    /// The current document's path.
    fn current_file_path(&self) -> (p: Option<PathBuf>)
        ensures
            p == self.file_path(),
    ;

    /// Sets the current document's line-ending style.
    fn set_line_ending_style(&mut self, style: LineEndingStyle)
        ensures
            *final(self) == old(self).with_line_ending(style),
    ;

    /// The current document's line-ending style.
    fn get_line_ending_style(&self) -> (style: LineEndingStyle)
        ensures
            style == self.line_ending(),
    ;

    /// Shows an error message.
    fn show_error(&mut self, message: &str)
        ensures
            *final(self) == old(self).with_error_shown(message@),
    ;

    /// Shows a success message.
    fn show_success(&mut self, message: &str)
        ensures
            *final(self) == old(self).with_success_shown(message@),
    ;
}

/// Creates an empty document.
pub fn execute_new_file<C: FileContext>(ctx: &mut C)
    ensures
        *final(ctx) == old(ctx).with_new_document(),
{
    ctx.new_document();
}

/// Sets the current document's line-ending style and reports it with
/// [`line_ending_message`].
pub fn execute_set_line_ending<C: FileContext>(ctx: &mut C, style: LineEndingStyle)
    ensures
        *final(ctx) == old(ctx).with_line_ending(style).with_success_shown("Line ending set to "@ + style_name(style)),
{
    ctx.set_line_ending_style(style);
    let message = line_ending_message(style);
    ctx.show_success(message.as_str());
}

} // verus!
