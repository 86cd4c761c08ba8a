use lite_xl::syntax::languages::{CommentStyle, Language, LanguageConfig, LanguageDetector};
use lite_xl::syntax::{ChosenHighlighter, HighlightedSpan, Highlighter, HighlighterFactory, PlainTextHighlighter, SyntaxError, SyntaxHighlighter};

#[test]
fn test_detect_rust() {
    assert_eq!(LanguageDetector::detect_from_path("main.rs"), Some(Language::Rust));
    assert_eq!(LanguageDetector::detect_from_path("src/lib.rs"), Some(Language::Rust));
}

#[test]
fn test_detect_python() {
    assert_eq!(LanguageDetector::detect_from_path("script.py"), Some(Language::Python));
}

#[test]
fn test_detect_javascript() {
    assert_eq!(LanguageDetector::detect_from_path("app.js"), Some(Language::JavaScript));
    assert_eq!(LanguageDetector::detect_from_path("component.jsx"), Some(Language::JavaScript));
}

#[test]
fn test_detect_markdown() {
    assert_eq!(LanguageDetector::detect_from_path("README.md"), Some(Language::Markdown));
}

#[test]
fn test_special_filenames() {
    assert_eq!(LanguageDetector::detect_from_path("Cargo.toml"), Some(Language::Rust));
    assert_eq!(LanguageDetector::detect_from_path("package.json"), Some(Language::JavaScript));
}

#[test]
fn test_shebang_detection() {
    let python_script = "#!/usr/bin/env python3\nprint('hello')";
    assert_eq!(LanguageDetector::detect_from_content(python_script), Some(Language::Python));

    let node_script = "#!/usr/bin/env node\nconsole.log('hello')";
    assert_eq!(LanguageDetector::detect_from_content(node_script), Some(Language::JavaScript));
}

#[test]
fn test_content_patterns() {
    let rust_code = "fn main() { println!(\"Hello\"); }";
    assert_eq!(LanguageDetector::detect_from_content(rust_code), Some(Language::Rust));

    let python_code = "def hello():\n    print('world')";
    assert_eq!(LanguageDetector::detect_from_content(python_code), Some(Language::Python));
}

#[test]
fn test_comment_styles() {
    assert_eq!(Language::Rust.comment_style(), Some(CommentStyle::CStyle));
    assert_eq!(Language::Python.comment_style(), Some(CommentStyle::Hash));
}

#[test]
fn test_language_by_name() {
    assert_eq!(LanguageDetector::get_by_name("rust"), Some(Language::Rust));
    assert_eq!(LanguageDetector::get_by_name("PYTHON"), Some(Language::Python));
    assert_eq!(LanguageDetector::get_by_name("javascript"), Some(Language::JavaScript));
}

#[test]
fn test_all_languages() {
    let langs = LanguageDetector::all_languages();
    assert!(langs.len() >= 10);
    assert!(langs.contains(&Language::Rust));
    assert!(langs.contains(&Language::Python));
}

#[test]
fn test_language_config() {
    let rust_config = LanguageConfig::default_for(Language::Rust);
    assert_eq!(rust_config.tab_width, 4);
    assert!(rust_config.use_spaces);

    let js_config = LanguageConfig::default_for(Language::JavaScript);
    assert_eq!(js_config.tab_width, 2);
    assert!(js_config.use_spaces);
}

#[test]
fn test_plain_text() {
    let highlighter = PlainTextHighlighter::new();
    let text = "Just plain text";
    let spans = highlighter.highlight_line(text);

    assert_eq!(spans.len(), 1);
    assert_eq!(spans[0].text, text);
}

#[test]
fn detection_edge_cases() {
    assert_eq!(LanguageDetector::detect_from_path("notes.MD"), Some(Language::Markdown));
    assert_eq!(LanguageDetector::detect_from_path("pyproject.toml"), Some(Language::Python));
    assert_eq!(LanguageDetector::detect_from_path("config.toml"), Some(Language::Toml));
    assert_eq!(LanguageDetector::detect_from_path(".bashrc"), None);
    assert_eq!(LanguageDetector::detect_from_path("dir/"), None);
    assert_eq!(LanguageDetector::detect_from_path("Makefile"), None);
    assert_eq!(LanguageDetector::detect_from_content("  {\"a\": 1}"), Some(Language::Json));
    assert_eq!(LanguageDetector::detect_from_content("<!DOCTYPE html>"), Some(Language::Html));
    assert_eq!(LanguageDetector::detect_from_content("[a]\nb = 1"), Some(Language::Toml));
    assert_eq!(LanguageDetector::detect_from_content("# T\n## S"), Some(Language::Markdown));
    assert_eq!(LanguageDetector::detect_from_content("plain words"), None);
    assert_eq!(LanguageDetector::detect_from_content("#!/bin/sh\necho"), None);
    assert_eq!(LanguageDetector::get_by_name("Plain Text"), Some(Language::PlainText));
    assert_eq!(LanguageDetector::get_by_name("cobol"), None);
}

#[test]
fn language_tables() {
    assert_eq!(Language::Json.name(), "JSON");
    assert_eq!(Language::Yaml.extensions(), &["yaml", "yml"]);
    assert_eq!(Language::Toml.special_filenames(), &["Cargo.toml", "pyproject.toml"]);
    assert_eq!(Language::JavaScript.shebang_patterns(), &["node", "nodejs"]);
    assert_eq!(CommentStyle::Html.line_prefix(), "<!--");
    assert_eq!(CommentStyle::Hash.block_delimiters(), None);
    assert_eq!(CommentStyle::CStyle.block_delimiters(), Some(("/*", "*/")));
    let md = LanguageConfig::default_for(Language::Markdown);
    assert!(!md.auto_indent);
    assert_eq!(md.tab_width, 4);
}

#[test]
fn plain_highlighter_and_errors() {
    let mut h = PlainTextHighlighter::with_color((1, 2, 3));
    let spans = Highlighter::highlight_line(&mut h, 7, "x");
    assert_eq!(spans[0].fg_color, (1, 2, 3));
    assert_eq!(spans[0].bg_color, None);
    assert!(!spans[0].style.bold);
    assert_eq!(
        SyntaxError::UnknownLanguage("cobol".to_string()).to_display_string(),
        "Unknown language: cobol"
    );
    assert_eq!(SyntaxError::ThemeNotFound("x".to_string()).to_display_string(), "Theme not found: x");
}

#[test]
fn test_rust_highlighting() {
    let mut highlighter = SyntaxHighlighter::new("Rust").unwrap();
    let code = "fn main() { println!(\"Hello\"); }";
    let spans = highlighter.highlight_line(0, code);

    assert!(!spans.is_empty());
    assert!(spans.len() > 1);
}

#[test]
fn test_python_highlighting() {
    let mut highlighter = SyntaxHighlighter::new("Python").unwrap();
    let code = "def hello(): print('world')";
    let spans = highlighter.highlight_line(0, code);

    assert!(!spans.is_empty());
}

#[test]
fn test_cache_invalidation() {
    let mut highlighter = SyntaxHighlighter::new("Rust").unwrap();

    highlighter.highlight_line(0, "line 0");
    highlighter.highlight_line(1, "line 1");
    highlighter.highlight_line(2, "line 2");

    highlighter.invalidate_from_line(1);

    assert!(highlighter.is_cached(0));
    assert!(!highlighter.is_cached(1));
    assert!(!highlighter.is_cached(2));
}

#[test]
fn test_available_languages() {
    let languages = SyntaxHighlighter::available_languages();
    assert!(!languages.is_empty());
    assert!(languages.contains(&"Rust".to_string()));
    assert!(languages.contains(&"Python".to_string()));
}

#[test]
fn test_available_themes() {
    let themes = SyntaxHighlighter::available_themes();
    assert!(!themes.is_empty());
}

#[test]
fn test_theme_change() {
    let mut highlighter = SyntaxHighlighter::new("Rust").unwrap();
    let themes = SyntaxHighlighter::available_themes();

    if themes.len() > 1 {
        let theme = &themes[1];
        assert!(highlighter.set_theme(theme).is_ok());
    }
}

#[test]
fn highlighter_cache_and_errors() {
    let mut h = SyntaxHighlighter::new("Rust").unwrap();
    let first = h.highlight_line(4, "let x = 1;");
    let text: String = first.iter().map(|s| s.text.as_str()).collect();
    assert_eq!(text, "let x = 1;");
    // a cached line gives back its spans whatever text comes with it
    let again = h.highlight_line(4, "something else");
    assert_eq!(again, first);
    assert!(h.is_cached(4));
    h.clear_cache();
    assert!(!h.is_cached(4));
    assert_eq!(h.language(), "Rust");
    assert!(matches!(SyntaxHighlighter::new("no such language"), Err(SyntaxError::UnknownLanguage(_))));
    assert!(matches!(h.set_theme("no such theme"), Err(SyntaxError::ThemeNotFound(_))));
    assert!(matches!(SyntaxHighlighter::from_path("notes.unknownext"), Err(SyntaxError::UnknownLanguage(_))));
    assert!(SyntaxHighlighter::from_path("main.rs").is_ok());
    assert!(matches!(
        SyntaxHighlighter::with_theme("Rust", "no such theme"),
        Err(SyntaxError::ThemeNotFound(_))
    ));
    let lines = vec!["a".to_string(), "b".to_string()];
    let all = h.highlight_lines(10, &lines);
    assert_eq!(all.len(), 2);
    assert!(h.is_cached(10) && h.is_cached(11));
    let mut factory_made = HighlighterFactory::create_for_language("no such language");
    let plain = factory_made.highlight_line(0, "abc");
    assert_eq!(plain.len(), 1);
    assert_eq!(plain[0].text, "abc");
}

#[test]
fn span_from_a_syntect_style() {
    let mut style = syntect::highlighting::Style::default();
    style.foreground = syntect::highlighting::Color { r: 1, g: 2, b: 3, a: 255 };
    style.font_style = syntect::highlighting::FontStyle::BOLD | syntect::highlighting::FontStyle::ITALIC;
    let span = HighlightedSpan::from_syntect("a".to_string(), style);
    assert_eq!(span.text, "a");
    assert_eq!(span.fg_color, (1, 2, 3));
    assert_eq!(span.bg_color, None);
    assert!(span.style.bold && span.style.italic && !span.style.underline);
}

#[test]
fn default_themes_and_languages() {
    let themes = SyntaxHighlighter::available_themes();
    for name in [
        "base16-ocean.dark",
        "base16-eighties.dark",
        "base16-mocha.dark",
        "base16-ocean.light",
        "InspiredGitHub",
        "Solarized (dark)",
        "Solarized (light)",
    ] {
        assert!(themes.contains(&name.to_string()));
    }
    let mut h = SyntaxHighlighter::new("rs").unwrap();
    let spans = h.highlight_line(0, "let x = 1;");
    let text: String = spans.iter().map(|s| s.text.as_str()).collect();
    assert_eq!(text, "let x = 1;");
}

#[test]
fn names_and_extensions_in_any_case() {
    assert_eq!(LanguageDetector::get_by_name("PYTHON"), Some(Language::Python));
    assert_eq!(LanguageDetector::get_by_name("plain text"), Some(Language::PlainText));
    assert_eq!(LanguageDetector::detect_from_path("docs/NOTES.MD"), Some(Language::Markdown));
    assert_eq!(LanguageDetector::detect_from_path("lib.Mjs"), Some(Language::JavaScript));
    assert_eq!(LanguageDetector::detect_from_path("site.HTM"), Some(Language::Html));
}

#[test]
fn factory_choices() {
    match HighlighterFactory::choose_for_language("Rust") {
        ChosenHighlighter::Syntax(h) => assert_eq!(h.language(), "Rust"),
        ChosenHighlighter::PlainText(_) => panic!("Rust should be known"),
    }
    assert!(matches!(HighlighterFactory::choose_for_language("no such language"), ChosenHighlighter::PlainText(_)));
    assert!(matches!(HighlighterFactory::choose_for_file("main.rs"), ChosenHighlighter::Syntax(_)));
    assert!(matches!(HighlighterFactory::choose_for_file("notes.unknownext"), ChosenHighlighter::PlainText(_)));
    let mut chosen = HighlighterFactory::choose_for_file("main.rs");
    let spans = chosen.highlight_line(0, "fn main() {}");
    let joined: String = spans.iter().map(|s| s.text.as_str()).collect();
    assert_eq!(joined, "fn main() {}");
}

#[test]
fn span_from_style_parts() {
    let span = HighlightedSpan::from_style_parts("x".to_string(), (9, 8, 7), 2);
    assert_eq!(span.text, "x");
    assert_eq!(span.fg_color, (9, 8, 7));
    assert_eq!(span.bg_color, None);
    assert!(!span.style.bold && !span.style.italic && span.style.underline);
}
