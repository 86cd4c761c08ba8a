use lite_xl::buffer::line_ending::{
    count_lines, detect_line_ending, detect_line_ending_with_stats, normalize_line_endings,
    split_lines_with_endings, LineEnding,
};

#[test]
fn test_line_ending_as_str() {
    assert_eq!(LineEnding::Lf.as_str(), "\n");
    assert_eq!(LineEnding::CrLf.as_str(), "\r\n");
    assert_eq!(LineEnding::Cr.as_str(), "\r");
}

#[test]
fn test_line_ending_len() {
    assert_eq!(LineEnding::Lf.len(), 1);
    assert_eq!(LineEnding::CrLf.len(), 2);
    assert_eq!(LineEnding::Cr.len(), 1);
}

#[test]
fn test_detect_line_ending() {
    assert_eq!(detect_line_ending("line1\nline2\nline3"), LineEnding::Lf);
    assert_eq!(detect_line_ending("line1\r\nline2\r\nline3"), LineEnding::CrLf);
    assert_eq!(detect_line_ending("line1\rline2\rline3"), LineEnding::Cr);
    assert_eq!(detect_line_ending("line1\nline2\r\n"), LineEnding::Lf);
    assert_eq!(detect_line_ending("single line"), LineEnding::native());
}

#[test]
fn test_detect_with_stats() {
    let (ending, stats) = detect_line_ending_with_stats("line1\nline2\r\nline3\n");
    assert_eq!(ending, LineEnding::Lf);
    assert_eq!(stats.lf, 2);
    assert_eq!(stats.crlf, 1);
    assert_eq!(stats.cr, 0);
    assert_eq!(stats.total(), 3);
    assert!(!stats.is_consistent());

    let (ending2, stats2) = detect_line_ending_with_stats("line1\nline2\nline3\n");
    assert_eq!(ending2, LineEnding::Lf);
    assert!(stats2.is_consistent());
}

#[test]
fn line_ending_test_normalize_line_endings() {
    let mixed = "line1\nline2\r\nline3\rline4";

    let unix = normalize_line_endings(mixed, LineEnding::Lf);
    assert_eq!(unix, "line1\nline2\nline3\nline4");

    let windows = normalize_line_endings(mixed, LineEnding::CrLf);
    assert_eq!(windows, "line1\r\nline2\r\nline3\r\nline4");

    let mac = normalize_line_endings(mixed, LineEnding::Cr);
    assert_eq!(mac, "line1\rline2\rline3\rline4");
}

#[test]
fn test_count_lines() {
    assert_eq!(count_lines("line1\nline2\nline3"), 3);
    assert_eq!(count_lines("line1\r\nline2\r\nline3"), 3);
    assert_eq!(count_lines("line1\rline2\rline3"), 3);
    assert_eq!(count_lines("single line"), 1);
    assert_eq!(count_lines(""), 0);
    assert_eq!(count_lines("line1\n"), 2);
}

#[test]
fn test_split_lines_with_endings() {
    let text = "line1\nline2\nline3";
    let lines: Vec<String> = split_lines_with_endings(text);
    assert_eq!(lines, vec!["line1\n", "line2\n", "line3"]);

    let text2 = "line1\r\nline2\r\nline3";
    let lines2: Vec<String> = split_lines_with_endings(text2);
    assert_eq!(lines2, vec!["line1\r\n", "line2\r\n", "line3"]);
}

#[test]
fn test_convert_to() {
    let unix_text = "line1\nline2\nline3";
    let converted = LineEnding::Lf.convert_to(unix_text, LineEnding::CrLf);
    assert_eq!(converted, "line1\r\nline2\r\nline3");
}

#[test]
fn test_native() {
    let native = LineEnding::native();
    assert_eq!(native, LineEnding::Lf);
}

#[test]
fn line_ending_names_and_trailing_ending() {
    assert_eq!(LineEnding::CrLf.name(), "CRLF");
    assert_eq!(split_lines_with_endings("a\n"), vec!["a\n".to_string()]);
    assert_eq!(normalize_line_endings("\r\r\n", LineEnding::Lf), "\n\n");
}

#[test]
fn test_normalize_twice_and_detect() {
    let mixed = "a\r\nb\rc\nd\r\n\r";
    for target in [LineEnding::Lf, LineEnding::CrLf, LineEnding::Cr] {
        let once = normalize_line_endings(mixed, target);
        assert_eq!(normalize_line_endings(&once, target), once);
        assert_eq!(detect_line_ending(&once), target);
        assert_eq!(count_lines(&once), count_lines(mixed));
    }
    assert_eq!(normalize_line_endings(mixed, LineEnding::Cr), "a\rb\rc\rd\r\r");
    let plain = normalize_line_endings("no endings", LineEnding::Cr);
    assert_eq!(plain, "no endings");
    assert_eq!(detect_line_ending(&plain), LineEnding::Lf);
}

#[test]
fn converting_text_of_one_style() {
    let crlf = "a\r\nb\r\nc";
    assert_eq!(LineEnding::CrLf.convert_to(crlf, LineEnding::CrLf), crlf);
    assert_eq!(normalize_line_endings(crlf, LineEnding::CrLf), crlf);
    assert_eq!(LineEnding::CrLf.convert_to(crlf, LineEnding::Lf), normalize_line_endings(crlf, LineEnding::Lf));
    assert_eq!(normalize_line_endings("x\ry\r", LineEnding::Cr), "x\ry\r");
}

#[test]
fn line_count_is_one_more_than_endings() {
    for text in ["line1\nline2\r\nline3\rline4", "single", "a\n", "\r\n\r\n"] {
        let (_, stats) = detect_line_ending_with_stats(text);
        assert_eq!(count_lines(text), 1 + stats.total());
    }
    assert_eq!(count_lines(""), 0);
}
