use lite_xl::config::{default_languages, ConfigError, EditorConfig, KeymapConfig};
use lite_xl::io::file_watcher::{
    convert_event, FileSystemEvent, FileWatcherBuilder, WatchEventKind, WatcherConfig,
};
use lite_xl::io::{codec_for, Codec, DetectedEncoding, FileReader, FileUtils, FileWriter, IoError, LineEnding};
use std::path::PathBuf;
use std::time::Duration;

#[test]
fn mod_test_validation() {
    let mut config = EditorConfig::default();
    assert!(config.validate().is_ok());

    config.tab_width = 0;
    assert!(config.validate().is_err());

    config.tab_width = 4;
    config.line_ending = "invalid".to_string();
    assert!(config.validate().is_err());
}

#[test]
fn editor_config_rules_and_messages() {
    let mut config = EditorConfig::default();
    config.tab_width = 17;
    match config.validate() {
        Err(ConfigError::ValidationError(m)) => assert_eq!(m, "tab_width must be between 1 and 16"),
        _ => panic!("expected a validation error"),
    }
    config.tab_width = 16;
    config.max_file_size_mb = 0;
    let e = config.validate().unwrap_err();
    assert_eq!(e.to_display_string(), "Invalid configuration: max_file_size_mb must be between 1 and 1000");
    config.max_file_size_mb = 1000;
    config.line_ending = "crlf".to_string();
    assert!(config.validate().is_ok());
    let mut other = EditorConfig::default();
    other.merge(config.clone());
    assert_eq!(other, config);
}

#[test]
fn keymap_merge_overrides_and_adds() {
    let mut a = KeymapConfig::default();
    a.custom.push(("ctrl+d".to_string(), "delete_line".to_string()));
    a.custom.push(("ctrl+/".to_string(), "comment".to_string()));
    let mut b = KeymapConfig::default();
    b.preset = "vim".to_string();
    b.custom.push(("ctrl+/".to_string(), "toggle_comment".to_string()));
    b.custom.push(("ctrl+k".to_string(), "kill".to_string()));
    a.merge(b);
    assert_eq!(a.preset, "vim");
    assert_eq!(
        a.custom,
        vec![
            ("ctrl+d".to_string(), "delete_line".to_string()),
            ("ctrl+/".to_string(), "toggle_comment".to_string()),
            ("ctrl+k".to_string(), "kill".to_string()),
        ]
    );
}

#[test]
fn default_language_overrides() {
    let langs = default_languages();
    assert_eq!(langs.len(), 4);
    assert_eq!(langs[0].0, "rust");
    assert_eq!(langs[0].1.line_length_guide, Some(100));
    assert_eq!(langs[1].1.line_length_guide, Some(88));
    assert_eq!(langs[3].0, "markdown");
    assert_eq!(langs[3].1.auto_indent, Some(false));
    assert_eq!(langs[3].1.line_length_guide, None);
}

#[test]
fn test_line_ending_detection() {
    assert_eq!(LineEnding::detect("hello\nworld"), LineEnding::Lf);
    assert_eq!(LineEnding::detect("hello\r\nworld"), LineEnding::CrLf);
    assert_eq!(LineEnding::detect("hello\rworld"), LineEnding::Cr);
}

#[test]
fn test_line_ending_normalization() {
    let text = "line1\r\nline2\nline3\rline4";
    let normalized = LineEnding::normalize(text, LineEnding::Lf);
    assert_eq!(normalized, "line1\nline2\nline3\nline4");

    let normalized = LineEnding::normalize(text, LineEnding::CrLf);
    assert_eq!(normalized, "line1\r\nline2\r\nline3\r\nline4");
}

#[test]
fn io_line_ending_ties_go_to_crlf() {
    assert_eq!(LineEnding::detect("no endings"), LineEnding::CrLf);
    assert_eq!(LineEnding::detect("a\r\nb\nc"), LineEnding::CrLf);
    assert_eq!(LineEnding::CrLf.as_str(), "\r\n");
}

#[test]
fn decoding_by_byte_order_mark() {
    let (e, t, bom) = FileReader::detect_and_decode(b"\xEF\xBB\xBFTest with BOM").unwrap();
    assert_eq!((e, t.as_str(), bom), (DetectedEncoding::Utf8Bom, "Test with BOM", true));

    let (e, t, bom) = FileReader::detect_and_decode(b"\xFF\xFEH\x00i\x00").unwrap();
    assert_eq!((e, t.as_str(), bom), (DetectedEncoding::Utf16Le, "Hi", true));

    let (e, t, _) = FileReader::detect_and_decode(b"\xFE\xFF\x00H\x00i").unwrap();
    assert_eq!((e, t.as_str()), (DetectedEncoding::Utf16Be, "Hi"));

    match FileReader::detect_and_decode(b"\xFF\xFEH") {
        Err(IoError::EncodingError(m)) => assert_eq!(m, "Invalid UTF-16LE encoding"),
        _ => panic!("odd UTF-16 input must fail"),
    }

    let (e, t, bom) = FileReader::detect_and_decode("Hello, World!\nThis is a test.".as_bytes()).unwrap();
    assert_eq!((e, t.as_str(), bom), (DetectedEncoding::Utf8, "Hello, World!\nThis is a test.", false));

    let (e, t, _) = FileReader::detect_and_decode(b"a\xFFb").unwrap();
    assert_eq!((e, t.as_str()), (DetectedEncoding::Unknown, "a\u{FFFD}b"));
}

#[test]
fn file_content_and_size_limit() {
    let c = FileReader::content_from_bytes(b"x\r\ny\r\n", 6).unwrap();
    assert_eq!(c.text, "x\r\ny\r\n");
    assert_eq!(c.line_ending, LineEnding::CrLf);
    assert_eq!(c.size, 6);
    assert!(!c.had_bom);
    assert!(FileReader::check_size(100 * 1024 * 1024).is_ok());
    match FileReader::check_size(100 * 1024 * 1024 + 1) {
        Err(e @ IoError::FileTooLarge { .. }) => assert_eq!(
            e.to_display_string(),
            "File too large: 104857601 bytes (max: 104857600 bytes)"
        ),
        _ => panic!("size over the limit"),
    }
    let latin = FileReader::decode_with_encoding(b"caf\xE9", DetectedEncoding::Latin1, 4).unwrap();
    assert_eq!(latin.text, "café");
}

#[test]
fn encoding_for_writing() {
    let bytes = FileWriter::encode_for_file("a\nb", DetectedEncoding::Utf8, LineEnding::CrLf, false).unwrap();
    assert_eq!(bytes, b"a\r\nb".to_vec());
    let bytes = FileWriter::encode_for_file("Test with BOM", DetectedEncoding::Utf8Bom, LineEnding::Lf, true).unwrap();
    assert_eq!(bytes, b"\xEF\xBB\xBFTest with BOM".to_vec());
    let bytes = FileWriter::encode_for_file("x", DetectedEncoding::Utf16Le, LineEnding::Lf, true).unwrap();
    assert_eq!(bytes, b"\xFF\xFEx".to_vec());
    let bytes = FileWriter::encode_for_file("caf\u{e9}", DetectedEncoding::Latin1, LineEnding::Lf, true).unwrap();
    assert_eq!(bytes, b"caf\xE9".to_vec());
    match FileWriter::encode_for_file("\u{4e2d}", DetectedEncoding::Latin1, LineEnding::Lf, false) {
        Err(IoError::EncodingError(m)) => assert_eq!(m, "Failed to encode text with Latin1"),
        _ => panic!("unmappable character"),
    }
    let (e, t, bom) = FileReader::detect_and_decode(
        &FileWriter::encode_for_file("Hello", DetectedEncoding::Utf8Bom, LineEnding::Lf, true).unwrap(),
    )
    .unwrap();
    assert_eq!((e, t.as_str(), bom), (DetectedEncoding::Utf8Bom, "Hello", true));
}

#[test]
fn file_utilities() {
    assert_eq!(FileUtils::get_extension("dir/Main.RS"), Some("rs".to_string()));
    assert_eq!(FileUtils::get_extension("archive.tar.gz"), Some("gz".to_string()));
    assert_eq!(FileUtils::get_extension(".hidden"), None);
    assert_eq!(FileUtils::get_extension("noext"), None);
    assert!(FileUtils::is_text_sample(b"plain text"));
    assert!(!FileUtils::is_text_sample(b"bin\x00ary"));
    assert!(DetectedEncoding::Utf8Bom.has_bom());
    assert!(!DetectedEncoding::Utf8.has_bom());
}

fn texts(v: &[&str]) -> Vec<Option<String>> {
    v.iter().map(|s| Some(s.to_string())).collect()
}

#[test]
fn watcher_event_filtering() {
    let paths = vec![PathBuf::from("/w/a.rs")];
    let exts = Some(vec!["RS".to_string()]);
    let e = convert_event(WatchEventKind::Modify, paths.clone(), &texts(&["/w/a.rs"]), &exts, true);
    assert_eq!(e, Some(FileSystemEvent::Modified(PathBuf::from("/w/a.rs"))));
    assert!(e.as_ref().unwrap().is_modification());
    let txt = convert_event(WatchEventKind::Modify, vec![PathBuf::from("/w/a.txt")], &texts(&["/w/a.txt"]), &exts, true);
    assert_eq!(txt, None);
    let hidden = convert_event(WatchEventKind::Create, vec![PathBuf::from("/w/.git")], &texts(&["/w/.git"]), &None, true);
    assert_eq!(hidden, None);
    let shown = convert_event(WatchEventKind::Remove, vec![PathBuf::from("/w/.git")], &texts(&["/w/.git"]), &None, false);
    assert!(shown.as_ref().unwrap().is_deletion());
    assert_eq!(shown.unwrap().path(), &PathBuf::from("/w/.git"));
    let other = convert_event(WatchEventKind::Other, vec![PathBuf::from("/w/b")], &texts(&["/w/b"]), &None, true);
    assert_eq!(other, Some(FileSystemEvent::Changed(PathBuf::from("/w/b"))));
    assert_eq!(convert_event(WatchEventKind::Any, Vec::new(), &Vec::new(), &None, true), None);
}

#[test]
fn test_builder() {
    let config = FileWatcherBuilder::new()
        .debounce_duration(Duration::from_millis(300))
        .recursive(true)
        .extensions(vec!["rs".to_string(), "toml".to_string()])
        .ignore_hidden(false)
        .into_config();

    assert_eq!(config.debounce_duration, Duration::from_millis(300));
    assert!(config.recursive);
    assert_eq!(config.extensions, Some(vec!["rs".to_string(), "toml".to_string()]));
    assert!(!config.ignore_hidden);
}

#[test]
fn watcher_config_defaults() {
    let c = WatcherConfig::default();
    assert_eq!(c.debounce_duration, Duration::from_millis(500));
    assert!(!c.recursive);
    assert!(c.extensions.is_none());
    assert!(c.ignore_hidden);
}

#[test]
fn utf16_decoding_outcomes() {
    match FileReader::utf16_outcome(DetectedEncoding::Utf16Le, "hi".to_string(), false) {
        Ok((e, text, bom)) => {
            assert_eq!(e, DetectedEncoding::Utf16Le);
            assert_eq!(text, "hi");
            assert!(bom);
        }
        Err(_) => panic!("expected text"),
    }
    match FileReader::utf16_outcome(DetectedEncoding::Utf16Be, String::new(), true) {
        Err(IoError::EncodingError(m)) => assert_eq!(m, "Invalid UTF-16BE encoding"),
        _ => panic!("expected an encoding error"),
    }
    match FileReader::utf16_outcome(DetectedEncoding::Utf16Le, String::new(), true) {
        Err(IoError::EncodingError(m)) => assert_eq!(m, "Invalid UTF-16LE encoding"),
        _ => panic!("expected an encoding error"),
    }
}

#[test]
fn codecs_for_detected_encodings() {
    assert_eq!(codec_for(DetectedEncoding::Utf8), Codec::Utf8);
    assert_eq!(codec_for(DetectedEncoding::Utf8Bom), Codec::Utf8);
    assert_eq!(codec_for(DetectedEncoding::Unknown), Codec::Utf8);
    assert_eq!(codec_for(DetectedEncoding::Utf16Le), Codec::Utf16Le);
    assert_eq!(codec_for(DetectedEncoding::Utf16Be), Codec::Utf16Be);
    assert_eq!(codec_for(DetectedEncoding::Latin1), Codec::Windows1252);
    // windows-1252 reads 0xE9 as 'é'
    let content = FileReader::decode_with_encoding(&[0x63, 0x61, 0x66, 0xE9], DetectedEncoding::Latin1, 4).unwrap();
    assert_eq!(content.text, "café");
}
