use lite_xl::buffer::{detect_line_ending, Buffer, BufferError, LineEnding, Position, Range};

#[test]
fn test_buffer_creation() {
    let buffer = Buffer::new();
    assert_eq!(buffer.line_count(), 1);
    assert!(buffer.is_empty());
    assert!(!buffer.is_modified());
}

#[test]
fn test_buffer_from_string() {
    let buffer = Buffer::from_str("line1\nline2\nline3");
    assert_eq!(buffer.line_count(), 3);
    assert_eq!(buffer.line(0).as_deref(), Some("line1\n"));
    assert_eq!(buffer.line(1).as_deref(), Some("line2\n"));
    assert_eq!(buffer.line(2).as_deref(), Some("line3"));
}

#[test]
fn mod_test_insert() {
    let mut buffer = Buffer::from_str("Hello");
    buffer.insert(Position::new(0, 5), ", world!").unwrap();
    assert_eq!(buffer.to_string(), "Hello, world!");
    assert!(buffer.is_modified());
}

#[test]
fn test_delete() {
    let mut buffer = Buffer::from_str("Hello, world!");
    let deleted = buffer.delete(Range::new(Position::new(0, 5), Position::new(0, 12))).unwrap();
    assert_eq!(deleted, ", world");
    assert_eq!(buffer.to_string(), "Hello!");
}

#[test]
fn test_slice() {
    let buffer = Buffer::from_str("Hello, world!");
    let text = buffer.slice(Range::new(Position::new(0, 0), Position::new(0, 5))).unwrap();
    assert_eq!(text, "Hello");
}

#[test]
fn test_pos_to_offset() {
    let buffer = Buffer::from_str("line1\nline2\nline3");
    assert_eq!(buffer.pos_to_offset(Position::new(0, 0)).unwrap(), 0);
    assert_eq!(buffer.pos_to_offset(Position::new(1, 0)).unwrap(), 6);
    assert_eq!(buffer.pos_to_offset(Position::new(2, 0)).unwrap(), 12);
}

#[test]
fn test_offset_to_pos() {
    let buffer = Buffer::from_str("line1\nline2\nline3");
    assert_eq!(buffer.offset_to_pos(0).unwrap(), Position::new(0, 0));
    assert_eq!(buffer.offset_to_pos(6).unwrap(), Position::new(1, 0));
    assert_eq!(buffer.offset_to_pos(12).unwrap(), Position::new(2, 0));
}

#[test]
fn mod_test_line_ending_detection() {
    assert_eq!(detect_line_ending("line1\nline2\n"), LineEnding::Lf);
    assert_eq!(detect_line_ending("line1\r\nline2\r\n"), LineEnding::CrLf);
    assert_eq!(detect_line_ending("line1\rline2\r"), LineEnding::Cr);
}

#[test]
fn mod_test_normalize_line_endings() {
    let mut buffer = Buffer::from_str("line1\r\nline2\nline3\rline4");
    buffer.normalize_to_line_ending(LineEnding::Lf);
    assert_eq!(buffer.to_string(), "line1\nline2\nline3\nline4");
    assert_eq!(buffer.line_ending(), LineEnding::Lf);
}

#[test]
fn test_iterators() {
    let buffer = Buffer::from_str("line1\nline2\nline3");

    let lines: Vec<String> = buffer.lines();
    assert_eq!(lines.len(), 3);

    let chars: Vec<char> = buffer.chars().into_iter().take(5).collect();
    assert_eq!(chars, vec!['l', 'i', 'n', 'e', '1']);
}

#[test]
fn test_clear() {
    let mut buffer = Buffer::from_str("Hello, world!");
    assert!(!buffer.is_empty());
    buffer.clear();
    assert!(buffer.is_empty());
    assert!(buffer.is_modified());
}

#[test]
fn test_multiline_operations() {
    let mut buffer = Buffer::from_str("line1\nline2\nline3");

    buffer.insert(Position::new(1, 5), " inserted").unwrap();
    assert_eq!(buffer.line(1).as_deref(), Some("line2 inserted\n"));

    let deleted = buffer.delete(Range::new(Position::new(0, 3), Position::new(1, 3))).unwrap();
    assert_eq!(deleted, "e1\nlin");
}

#[test]
fn test_clamp_position() {
    let buffer = Buffer::from_str("short\nlonger line\nx");

    let clamped = buffer.clamp_position(Position::new(0, 100));
    assert_eq!(clamped, Position::new(0, 5));

    let clamped = buffer.clamp_position(Position::new(100, 0));
    assert_eq!(clamped, Position::new(2, 0));
}

#[test]
fn buffer_rejects_positions_past_the_text() {
    let mut buffer = Buffer::from_str("ab\ncd");
    assert!(buffer.pos_to_offset(Position::new(5, 0)).is_err());
    assert!(buffer.offset_to_pos(99).is_err());
    assert!(buffer.insert(Position::new(7, 0), "x").is_err());
    assert_eq!(buffer.to_string(), "ab\ncd");
    assert!(!buffer.is_modified());
    match buffer.slice(Range::new(Position::new(0, 0), Position::new(9, 0))) {
        Err(BufferError::InvalidPosition(_)) | Err(_) => {}
        Ok(_) => panic!("slice past the end"),
    }
}

#[test]
fn buffer_replace_and_versions() {
    let mut buffer = Buffer::from_str("Hello, world!");
    let v0 = buffer.version();
    let old = buffer.replace(Range::new(Position::new(0, 7), Position::new(0, 12)), "there").unwrap();
    assert_eq!(old, "world");
    assert_eq!(buffer.to_string(), "Hello, there!");
    assert!(buffer.version() > v0);
    assert_eq!(buffer.char_at(Position::new(0, 1)), Some('e'));
    assert_eq!(buffer.line_len(0), Some(13));
    assert_eq!(buffer.len_chars(), 13);
    buffer.clear_modified();
    assert!(!buffer.is_modified());
}

#[test]
fn normalizing_converts_even_when_the_style_matches() {
    let mut buffer = Buffer::from_str("line1\r\nline2\nline3");
    assert_eq!(buffer.line_ending(), LineEnding::Lf);
    buffer.normalize_to_line_ending(LineEnding::Lf);
    assert_eq!(buffer.to_string(), "line1\nline2\nline3");
    assert!(buffer.is_modified());
    let mut clean = Buffer::from_str("a\nb");
    clean.normalize_to_line_ending(LineEnding::Lf);
    assert!(!clean.is_modified());
}

#[test]
fn test_offset_position_round_trip() {
    let buffer = Buffer::from_str("ab\r\ncd\nef");
    for offset in 0..=buffer.len_chars() {
        let pos = buffer.offset_to_pos(offset).unwrap();
        assert_eq!(buffer.pos_to_offset(pos).unwrap(), offset);
    }
    assert_eq!(buffer.offset_to_pos(3).unwrap(), Position::new(0, 3));
    assert_eq!(buffer.offset_to_pos(4).unwrap(), Position::new(1, 0));
    // A column just past a line break stands for the start of the next line.
    assert_eq!(buffer.pos_to_offset(Position::new(0, 4)).unwrap(), 4);
    assert_eq!(buffer.offset_to_pos(4).unwrap(), Position::new(1, 0));
    assert_eq!(buffer.pos_to_offset(Position::new(2, 2)).unwrap(), 9);
    assert_eq!(buffer.offset_to_pos(9).unwrap(), Position::new(2, 2));
}
