use lite_xl::commands::editing::{
    duplicate_lines, execute_delete_backward, execute_duplicate_line, execute_indent, execute_insert,
    execute_join_lines, execute_paste, execute_split_line, execute_delete_line, execute_to_lowercase, execute_to_title_case, execute_toggle_block_comment,
    execute_toggle_comment, execute_to_uppercase, execute_unindent, indent_lines, join_with_space,
    to_title_case, toggle_block_comment_text, toggle_comment_lines, unindent_lines, EditContext,
};

struct MockEditContext {
    text: String,
    selection: String,
    has_selection: bool,
}

impl MockEditContext {
    fn new(text: &str) -> Self {
        Self { text: text.to_string(), selection: String::new(), has_selection: false }
    }
}

impl EditContext for MockEditContext {
    fn insert_text(&mut self, text: &str) {
        self.text.push_str(text);
    }

    fn delete_selection(&mut self) {
        self.text.clear();
        self.selection.clear();
        self.has_selection = false;
    }

    fn delete_backward(&mut self) {
        self.text.pop();
    }

    fn get_selection(&self) -> String {
        self.selection.clone()
    }

    fn set_selection(&mut self, text: &str) {
        self.selection = text.to_string();
    }

    fn get_current_line(&self) -> String {
        self.text.clone()
    }

    fn set_current_line(&mut self, text: &str) {
        self.text = text.to_string();
    }

    fn get_selected_lines(&self) -> Vec<String> {
        self.text.lines().map(String::from).collect()
    }

    fn set_selected_lines(&mut self, lines: Vec<String>) {
        self.text = lines.join("\n");
    }

    fn delete_line(&mut self) {
        self.text.clear();
    }

    fn delete_to_end_of_line(&mut self) {
        self.text.clear();
    }

    fn delete_to_start_of_line(&mut self) {
        self.text.clear();
    }

    fn delete_word_forward(&mut self) {
        self.text.clear();
    }

    fn delete_word_backward(&mut self) {
        self.text.pop();
    }

    fn has_selection(&self) -> bool {
        self.has_selection
    }

    fn get_indent_string(&self) -> String {
        "    ".to_string()
    }

    fn get_line_comment_string(&self) -> Option<String> {
        Some("//".to_string())
    }

    fn get_block_comment_strings(&self) -> Option<(String, String)> {
        Some(("/*".to_string(), "*/".to_string()))
    }
}

#[test]
fn editing_test_insert() {
    let mut ctx = MockEditContext::new("");
    execute_insert(&mut ctx, "Hello");
    assert_eq!(ctx.text, "Hello");
}

#[test]
fn test_indent() {
    let mut ctx = MockEditContext::new("line1\nline2");
    execute_indent(&mut ctx);
    assert_eq!(ctx.text, "    line1\n    line2");
}

#[test]
fn test_unindent() {
    let mut ctx = MockEditContext::new("    line1\n    line2");
    execute_unindent(&mut ctx);
    assert_eq!(ctx.text, "line1\nline2");
}

#[test]
fn test_toggle_comment() {
    let mut ctx = MockEditContext::new("line1\nline2");
    execute_toggle_comment(&mut ctx);
    assert!(ctx.text.contains("//"));

    execute_toggle_comment(&mut ctx);
    assert!(!ctx.text.contains("//"));
}

#[test]
fn test_to_uppercase() {
    let mut ctx = MockEditContext::new("");
    ctx.selection = "hello".to_string();
    execute_to_uppercase(&mut ctx);
    assert_eq!(ctx.selection, "HELLO");
}

#[test]
fn test_to_lowercase() {
    let mut ctx = MockEditContext::new("");
    ctx.selection = "HELLO".to_string();
    execute_to_lowercase(&mut ctx);
    assert_eq!(ctx.selection, "hello");
}

#[test]
fn test_to_title_case() {
    let mut ctx = MockEditContext::new("");
    ctx.selection = "hello world".to_string();
    execute_to_title_case(&mut ctx);
    assert_eq!(ctx.selection, "Hello World");
}

#[test]
fn test_join_lines() {
    let mut ctx = MockEditContext::new("line1\nline2\nline3");
    execute_join_lines(&mut ctx);
    assert_eq!(ctx.text, "line1 line2 line3");
}

fn strings(v: &[&str]) -> Vec<String> {
    v.iter().map(|s| s.to_string()).collect()
}

#[test]
fn toggle_comment_twice_restores_lines() {
    let lines = strings(&["  a", "b"]);
    let once = toggle_comment_lines("//", &lines);
    assert_eq!(once, strings(&["  // a", "// b"]));
    let twice = toggle_comment_lines("//", &once);
    assert_eq!(twice, lines);
}

#[test]
fn toggle_comment_keeps_blank_lines() {
    let lines = strings(&["a", "  "]);
    assert_eq!(toggle_comment_lines("//", &lines), strings(&["// a", "  "]));
}

#[test]
fn toggle_comment_uncomments_when_all_commented() {
    let lines = strings(&["// x", "  //y"]);
    assert_eq!(toggle_comment_lines("//", &lines), strings(&["x", "  y"]));
}

#[test]
fn line_transformations() {
    assert_eq!(duplicate_lines(&strings(&["a", "b"])), strings(&["a", "a", "b", "b"]));
    assert_eq!(join_with_space(&strings(&["a", "  b", "c  "])), "a   b c  ");
    assert_eq!(indent_lines("\t", &strings(&["a", ""])), strings(&["\ta", "\t"]));
    assert_eq!(unindent_lines("    ", &strings(&["      a", "  b", "c"])), strings(&["  a", "b", "c"]));
    assert_eq!(to_title_case("hello  big world"), "Hello  Big World");
}

#[test]
fn block_comment_toggle() {
    assert_eq!(toggle_block_comment_text("x = 1", "/*", "*/"), "/*x = 1*/");
    assert_eq!(toggle_block_comment_text("/*x = 1*/", "/*", "*/"), "x = 1");
    let mut ctx = MockEditContext::new("");
    ctx.selection = "code".to_string();
    execute_toggle_block_comment(&mut ctx);
    assert_eq!(ctx.selection, "/*code*/");
}

#[test]
fn duplicate_and_delete_backward_commands() {
    let mut ctx = MockEditContext::new("ab");
    execute_duplicate_line(&mut ctx);
    assert_eq!(ctx.text, "ab\nab");
    let mut ctx2 = MockEditContext::new("xyz");
    execute_delete_backward(&mut ctx2);
    assert_eq!(ctx2.text, "xy");
}

#[test]
fn toggle_comment_twice_around_blank_lines() {
    let lines = strings(&["a", "", "  ", "b"]);
    let once = toggle_comment_lines("//", &lines);
    assert_eq!(once, strings(&["// a", "", "  ", "// b"]));
    let twice = toggle_comment_lines("//", &once);
    assert_eq!(twice, lines);
}

#[test]
fn split_line_inserts_a_newline_and_paste_replaces_the_selection() {
    let mut ctx = MockEditContext::new("ab");
    execute_split_line(&mut ctx);
    assert_eq!(ctx.text, "ab\n");
    execute_paste(&mut ctx, "pasted");
    assert_eq!(ctx.selection, "pasted");
    execute_delete_line(&mut ctx);
    assert_eq!(ctx.text, "");
}
