use lite_xl::clipboard::{Clipboard, ClipboardContent, ClipboardError};

#[test]
fn test_clipboard_basic() {
    let mut clipboard = Clipboard::new();

    clipboard.set_text("Hello, world!".to_string()).unwrap();
    let text = clipboard.get_text().unwrap();

    assert_eq!(text, "Hello, world!");
}

#[test]
fn test_clipboard_history() {
    let mut clipboard = Clipboard::with_history_size(3);

    clipboard.set_text("First".to_string()).unwrap();
    clipboard.set_text("Second".to_string()).unwrap();
    clipboard.set_text("Third".to_string()).unwrap();

    assert_eq!(clipboard.get_history().len(), 3);
    assert_eq!(clipboard.get_history_entry(0), Some(&"Third".to_string()));
    assert_eq!(clipboard.get_history_entry(1), Some(&"Second".to_string()));
    assert_eq!(clipboard.get_history_entry(2), Some(&"First".to_string()));
}

#[test]
fn test_clipboard_multi() {
    let mut clipboard = Clipboard::new();

    let entries = vec!["cursor1".to_string(), "cursor2".to_string()];
    clipboard.set_multi(entries.clone());

    assert!(clipboard.has_multi());
    assert_eq!(clipboard.get_multi(), &entries[..]);

    clipboard.clear_multi();
    assert!(!clipboard.has_multi());
}

#[test]
fn test_clipboard_content() {
    let content = ClipboardContent::from_text("test".to_string());
    assert_eq!(content.as_text(), "test");

    let code = ClipboardContent::from_code("fn main() {}".to_string(), Some("rust".to_string()));
    assert_eq!(code.as_text(), "fn main() {}");
}

#[test]
fn test_clipboard_error_display() {
    let error = ClipboardError::Empty;
    assert_eq!(error.to_display_string(), "Clipboard is empty");

    let error = ClipboardError::AccessError("test".to_string());
    assert_eq!(error.to_display_string(), "Clipboard access error: test");
}

#[test]
fn clipboard_set_then_get_and_history_limit() {
    let mut clipboard = Clipboard::with_history_size(2);
    assert_eq!(clipboard.get_text().unwrap(), "");
    clipboard.set_text("a".to_string()).unwrap();
    clipboard.set_text("b".to_string()).unwrap();
    clipboard.set_text("c".to_string()).unwrap();
    assert_eq!(clipboard.get_text().unwrap(), "c");
    assert_eq!(clipboard.get_history().len(), 2);
    assert_eq!(clipboard.get_history_entry(1), Some(&"b".to_string()));
    assert_eq!(clipboard.get_history_entry(2), None);
    clipboard.clear_history();
    assert_eq!(clipboard.get_history().len(), 0);
    assert_eq!(
        ClipboardError::UnsupportedFormat("png".to_string()).to_display_string(),
        "Unsupported clipboard format: png"
    );
    assert_eq!(ClipboardError::PlatformNotSupported.to_display_string(), "Platform not supported");
}
