use lite_xl::terminal::config::{check_grid_size, check_scrollback_lines};
use lite_xl::terminal::backend::pty::PtyError;
use lite_xl::terminal::backend::process::{detect_available_shells, ShellConfig, ShellType};
use lite_xl::terminal::buffer::cell::Cell;
use lite_xl::terminal::buffer::grid::Grid;
use lite_xl::terminal::clipboard::{Selection, SelectionMode, TerminalClipboard};
use lite_xl::terminal::commands::TerminalCommand;
use lite_xl::terminal::config::{CursorStyle, TerminalColors};
use lite_xl::terminal::manager::TerminalId;
use lite_xl::terminal::parser::sequences::{
    Attributes, Color, NamedColor, Rgb, UnderlineStyle,
};
use lite_xl::ui::{DockPosition, TerminalCursor, TerminalCursorStyle};

#[test]
fn test_selection_new() {
    let sel = Selection::new();
    assert!(!sel.active);
    assert_eq!(sel.mode, SelectionMode::Normal);
}

#[test]
fn test_selection_start() {
    let mut sel = Selection::new();
    sel.start(1, 2, SelectionMode::Normal);
    assert!(sel.active);
    assert_eq!(sel.start, (1, 2));
    assert_eq!(sel.end, (1, 2));
}

#[test]
fn test_selection_update() {
    let mut sel = Selection::new();
    sel.start(0, 0, SelectionMode::Normal);
    sel.update(2, 5);
    assert_eq!(sel.end, (2, 5));
}

#[test]
fn test_selection_bounds() {
    let mut sel = Selection::new();
    sel.start(3, 5, SelectionMode::Normal);
    sel.update(1, 2);

    let ((start_row, start_col), (end_row, end_col)) = sel.bounds();
    assert_eq!(start_row, 1);
    assert_eq!(start_col, 2);
    assert_eq!(end_row, 3);
    assert_eq!(end_col, 5);
}

#[test]
fn test_selection_contains_normal() {
    let mut sel = Selection::new();
    sel.start(1, 2, SelectionMode::Normal);
    sel.update(3, 4);

    assert!(!sel.contains(0, 5));
    assert!(sel.contains(1, 2));
    assert!(sel.contains(2, 0));
    assert!(sel.contains(3, 4));
    assert!(!sel.contains(3, 5));
    assert!(!sel.contains(4, 0));
}

#[test]
fn test_selection_contains_block() {
    let mut sel = Selection::new();
    sel.start(1, 2, SelectionMode::Block);
    sel.update(3, 4);

    assert!(sel.contains(1, 2));
    assert!(sel.contains(2, 3));
    assert!(!sel.contains(2, 1));
    assert!(!sel.contains(2, 5));
    assert!(!sel.contains(0, 3));
    assert!(!sel.contains(4, 3));
}

#[test]
fn test_clipboard_new() {
    let clipboard = TerminalClipboard::new();
    assert!(!clipboard.has_selection());
    assert_eq!(clipboard.get_text(), "");
}

#[test]
fn test_clipboard_selection() {
    let mut clipboard = TerminalClipboard::new();
    clipboard.start_selection(0, 0, SelectionMode::Normal);
    assert!(clipboard.has_selection());

    clipboard.clear_selection();
    assert!(!clipboard.has_selection());
}

#[test]
fn test_clipboard_copy_normal() {
    let mut clipboard = TerminalClipboard::new();
    let grid = Grid::new(10, 5);

    clipboard.start_selection(0, 0, SelectionMode::Normal);
    clipboard.update_selection(0, 5);

    let text = clipboard.copy_selection(&grid);
    assert!(!text.is_empty());
}

#[test]
fn test_clipboard_text_operations() {
    let mut clipboard = TerminalClipboard::new();

    clipboard.set_text("Hello, World!".to_string());
    assert_eq!(clipboard.get_text(), "Hello, World!");
    assert_eq!(clipboard.paste(), "Hello, World!");
}

#[test]
fn copy_selection_in_each_mode() {
    let mut grid = Grid::new(3, 4);
    for (r, row) in ["abcd", "efgh", "ijkl"].iter().enumerate() {
        for (c, ch) in row.chars().enumerate() {
            grid.set(r, c, Cell::new(ch));
        }
    }
    let mut clipboard = TerminalClipboard::new();
    clipboard.start_selection(0, 2, SelectionMode::Normal);
    clipboard.update_selection(1, 1);
    assert_eq!(clipboard.copy_selection(&grid), "cd\nef");
    assert_eq!(clipboard.get_text(), "cd\nef");

    clipboard.start_selection(0, 1, SelectionMode::Block);
    clipboard.update_selection(2, 2);
    assert_eq!(clipboard.copy_selection(&grid), "bc\nfg\njk");

    clipboard.start_selection(2, 3, SelectionMode::Line);
    clipboard.update_selection(1, 0);
    assert_eq!(clipboard.copy_selection(&grid), "efgh\nijkl");

    clipboard.clear_selection();
    assert_eq!(clipboard.copy_selection(&grid), "");
    assert_eq!(clipboard.get_text(), "efgh\nijkl");
}

#[test]
fn test_parse_hex_color() {
    assert_eq!(TerminalColors::parse_hex_color("#ff0000"), Some((255, 0, 0)));
    assert_eq!(TerminalColors::parse_hex_color("00ff00"), Some((0, 255, 0)));
    assert_eq!(TerminalColors::parse_hex_color("#invalid"), None);
}

#[test]
fn test_ansi_colors() {
    let colors = TerminalColors::default();
    assert_eq!(colors.ansi_colors.len(), 16);

    assert_eq!(colors.get_color(0), Some("#000000".to_string()));
    assert_eq!(colors.get_color(1), Some("#cd3131".to_string()));
}

#[test]
fn hex_colors_and_palette() {
    assert_eq!(TerminalColors::parse_hex_color("##1E1e1e"), Some((30, 30, 30)));
    assert_eq!(TerminalColors::parse_hex_color("+f+f+f"), Some((15, 15, 15)));
    assert_eq!(TerminalColors::parse_hex_color("#12345"), None);
    assert_eq!(TerminalColors::parse_hex_color("éé1234"), None);
    let mut colors = TerminalColors::default();
    assert_eq!(colors.get_color(16), None);
    colors.palette = (0..20).map(|i| format!("#{:06x}", i)).collect();
    assert_eq!(colors.get_color(17), Some("#000011".to_string()));
    assert_eq!(colors.get_color(30), None);
    assert_eq!(CursorStyle::default(), CursorStyle::Block);
}

#[test]
fn test_clipboard_creation() {
    let clipboard = TerminalClipboard::new();
    assert!(!clipboard.has_selection());
}

#[test]
fn terminal_commands_and_ids() {
    assert_eq!(TerminalCommand::New.description(), "New Terminal");
    assert_eq!(TerminalCommand::SwitchTo(3).to_display_string(), "Switch to Terminal");
    assert_eq!(TerminalCommand::SendInput("ls".to_string()).description(), "Send Input to Terminal");
    assert_eq!(TerminalId(7).default_title(), "Terminal 7");
}

#[test]
fn test_rgb_creation() {
    let color = Rgb::new(255, 128, 64);
    assert_eq!(color.r, 255);
    assert_eq!(color.g, 128);
    assert_eq!(color.b, 64);
}

#[test]
fn test_rgb_from_hex() {
    let color = Rgb::from_hex(0xFF8040);
    assert_eq!(color.r, 255);
    assert_eq!(color.g, 128);
    assert_eq!(color.b, 64);
    assert_eq!(color.to_display_string(), "#ff8040");
}

#[test]
fn test_named_color_from_ansi() {
    assert_eq!(NamedColor::from_ansi(0), Some(NamedColor::Black));
    assert_eq!(NamedColor::from_ansi(7), Some(NamedColor::White));
    assert_eq!(NamedColor::from_ansi(15), Some(NamedColor::BrightWhite));
    assert_eq!(NamedColor::from_ansi(16), None);
}

#[test]
fn test_attributes_default() {
    let attrs = Attributes::default();
    assert!(!attrs.bold);
    assert!(!attrs.italic);
    assert_eq!(attrs.underline, UnderlineStyle::Off);
}

#[test]
fn sequences_test_attributes_reset() {
    let mut attrs = Attributes { bold: true, italic: true, ..Default::default() };
    attrs.reset();
    assert!(!attrs.bold);
    assert!(!attrs.italic);
}

#[test]
fn sequence_colors() {
    assert_eq!(Color::rgb(1, 2, 3), Color::Rgb(Rgb { r: 1, g: 2, b: 3 }));
    assert_eq!(Color::indexed(196), Color::Indexed(196));
    assert_eq!(Rgb::from_hex(0x12_0a_0b0c).to_display_string(), "#0a0b0c");
}

#[test]
fn test_shell_type_command() {
    assert_eq!(ShellType::Bash.command(), "bash");
    assert_eq!(ShellType::Zsh.command(), "zsh");
    assert_eq!(ShellType::PowerShell.command(), "powershell");
}

#[test]
fn test_shell_type_from_path() {
    assert_eq!(ShellType::from_path("/bin/bash"), ShellType::Bash);
    assert_eq!(ShellType::from_path("/usr/bin/zsh"), ShellType::Zsh);
    assert_eq!(ShellType::from_path("/usr/bin/fish"), ShellType::Fish);
}

#[test]
fn test_shell_type_detect() {
    let shell = ShellType::detect_from(None);
    assert!(!shell.command().is_empty());
}

#[test]
fn test_shell_config_default() {
    let config = ShellConfig::for_shell_var(None);
    assert!(!config.command().is_empty());
}

#[test]
fn test_shell_config_builder() {
    let config = ShellConfig::for_shell_var(None)
        .shell(ShellType::Bash)
        .arg("--login".to_string())
        .env("FOO".to_string(), "bar".to_string());

    assert_eq!(config.shell, ShellType::Bash);
    assert!(config.args.contains(&"--login".to_string()));
    assert_eq!(config.env, vec![("FOO".to_string(), "bar".to_string())]);
}

#[test]
fn shell_kinds_by_path() {
    assert_eq!(ShellType::from_path("C:\\Windows\\System32\\cmd.exe"), ShellType::Cmd);
    assert_eq!(ShellType::from_path("/opt/PWSH"), ShellType::Pwsh);
    assert_eq!(ShellType::from_path("/bin/dash"), ShellType::Sh);
    assert_eq!(ShellType::from_path("/bin/nu"), ShellType::Custom("/bin/nu".to_string()));
    assert_eq!(ShellType::detect_from(None), ShellType::Sh);
    assert_eq!(ShellType::Fish.default_args(), vec!["-i".to_string()]);
    assert!(ShellType::Cmd.default_args().is_empty());
    assert!(!ShellType::Bash.is_available());
    assert!(detect_available_shells().is_empty());
    let cfg = ShellConfig::with_shell(ShellType::Pwsh).cwd("/tmp".to_string());
    assert_eq!(cfg.args_as_strs(), vec!["-NoLogo"]);
    assert_eq!(cfg.cwd_as_str(), Some("/tmp"));
}

#[test]
fn test_dock_position_default() {
    let pos = DockPosition::default();
    assert_eq!(pos, DockPosition::Bottom);
}

#[test]
fn test_key_event_conversion() {
    assert!(true);
}

#[test]
fn terminal_view_cursor_default() {
    let c = TerminalCursor::default();
    assert_eq!((c.row, c.col, c.visible), (0, 0, true));
    assert_eq!(c.style, TerminalCursorStyle::Block);
}

#[test]
fn pty_error_messages() {
    assert_eq!(PtyError::Spawn("no shell".to_string()).to_display_string(), "Failed to spawn PTY: no shell");
    assert_eq!(PtyError::Exited.to_display_string(), "PTY process has exited");
    assert_eq!(PtyError::NotEnabled.to_display_string(), "PTY feature is not enabled in this build");
    let read = PtyError::from_io(std::io::Error::new(std::io::ErrorKind::Other, "gone"));
    assert!(read.to_display_string().starts_with("Failed to read from PTY: "));
}

#[test]
fn terminal_size_checks() {
    use_checks();
}

fn use_checks() {
    assert_eq!(check_scrollback_lines(0), Some("scrollback_lines must be greater than 0".to_string()));
    assert_eq!(check_scrollback_lines(1_000_001), Some("scrollback_lines must be less than 1,000,000".to_string()));
    assert_eq!(check_scrollback_lines(1_000_000), None);
    assert_eq!(check_grid_size(0, 24), Some("cols and rows must be greater than 0".to_string()));
    assert_eq!(check_grid_size(80, 24), None);
}
