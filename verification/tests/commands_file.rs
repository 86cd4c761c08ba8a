use lite_xl::commands::file::{
    execute_new_file, execute_set_line_ending, line_ending_message, FileContext, FileEncoding, FileError,
};
use lite_xl::commands::LineEndingStyle;
use std::path::PathBuf;

#[test]
fn test_file_encoding_detect_utf8() {
    let content = "Hello, world!".as_bytes();
    assert_eq!(FileEncoding::detect(content), FileEncoding::Utf8);
}

#[test]
fn test_file_encoding_detect_utf8_bom() {
    let content = b"\xEF\xBB\xBFHello, world!";
    assert_eq!(FileEncoding::detect(content), FileEncoding::Utf8);
}

#[test]
fn test_file_encoding_detect_utf16le() {
    let content = b"\xFF\xFEH\x00e\x00l\x00l\x00o\x00";
    assert_eq!(FileEncoding::detect(content), FileEncoding::Utf16Le);
}

#[test]
fn test_file_encoding_detect_ascii() {
    let content = b"Hello";
    assert_eq!(FileEncoding::detect(content), FileEncoding::Utf8);
}

#[test]
fn test_file_error_display() {
    let error = FileError::NotFound(PathBuf::from("/tmp/test.txt"));
    assert_eq!(error.to_display_string(), "File not found: /tmp/test.txt");
}

#[test]
fn test_line_ending_style() {
    let _lf = LineEndingStyle::Lf;
    let _crlf = LineEndingStyle::CrLf;
    let _cr = LineEndingStyle::Cr;
}

#[test]
fn file_encoding_detects_utf16be_and_invalid_utf8() {
    assert_eq!(FileEncoding::detect(b"\xFE\xFF\x00H"), FileEncoding::Utf16Be);
    assert_eq!(FileEncoding::detect(b"\xC3\x28"), FileEncoding::Latin1);
    assert_eq!(FileEncoding::Utf16Le.name(), "UTF-16 LE");
}

struct Recorder {
    created: usize,
    style: LineEndingStyle,
    messages: Vec<String>,
}

impl FileContext for Recorder {
    fn new_document(&mut self) {
        self.created += 1;
    }

    fn close_document(&mut self) -> Result<(), FileError> {
        Ok(())
    }

    fn close_all_documents(&mut self) -> Result<(), FileError> {
        Ok(())
    }

    fn has_unsaved_changes(&self) -> bool {
        false
    }

    fn current_file_path(&self) -> Option<PathBuf> {
        None
    }

    fn set_line_ending_style(&mut self, style: LineEndingStyle) {
        self.style = style;
    }

    fn get_line_ending_style(&self) -> LineEndingStyle {
        self.style
    }

    fn show_error(&mut self, message: &str) {
        self.messages.push(message.to_string());
    }

    fn show_success(&mut self, message: &str) {
        self.messages.push(message.to_string());
    }
}

#[test]
fn file_commands_on_a_context() {
    let mut ctx = Recorder { created: 0, style: LineEndingStyle::Lf, messages: Vec::new() };
    execute_new_file(&mut ctx);
    assert_eq!(ctx.created, 1);
    execute_set_line_ending(&mut ctx, LineEndingStyle::CrLf);
    assert_eq!(ctx.style, LineEndingStyle::CrLf);
    assert_eq!(ctx.messages, vec!["Line ending set to CRLF (Windows)".to_string()]);
    assert_eq!(line_ending_message(LineEndingStyle::Cr), "Line ending set to CR (Classic Mac)");
}
