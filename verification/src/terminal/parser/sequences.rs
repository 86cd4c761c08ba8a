//! The terminal actions that escape sequences stand for, with their
//! colors, attributes and modes.

use vstd::prelude::*;
use crate::text::string_push;

verus! {

/// A 24-bit color.
#[derive(Debug, Clone, Copy, PartialEq, Eq, Hash, Structural)]
pub struct Rgb {
    /// Red
    pub r: u8,
    /// Green
    pub g: u8,
    /// Blue
    pub b: u8,
}

/// The lower-case hexadecimal digit of a value below 16.
pub open spec fn hex_char(d: nat) -> char {
    if d < 10 {
        (('0' as u32) + d) as char
    } else {
        (('a' as u32) + d - 10) as char
    }
}

/// A byte in two lower-case hexadecimal digits.
pub open spec fn hex2(b: u8) -> Seq<char> {
    seq![hex_char((b / 16) as nat), hex_char((b % 16) as nat)]
}

fn hex_char_exec(d: u8) -> (c: char)
    requires
        d < 16,
    ensures
        c == hex_char(d as nat),
{
    if d < 10 {
        ((('0' as u8) + d) as char)
    } else {
        ((('a' as u8) + d - 10) as char)
    }
}

impl Rgb {
    /// A color of three components.
    pub fn new(r: u8, g: u8, b: u8) -> (c: Self)
        ensures
            c == (Rgb { r, g, b }),
    {
        Self { r, g, b }
    }

    /// The color that `0xRRGGBB` writes (higher bits are ignored).
    pub fn from_hex(hex: u32) -> (c: Self)
        ensures
            c.r == (hex / 65536) % 256,
            c.g == (hex / 256) % 256,
            c.b == hex % 256,
    {
        let r = ((hex >> 16) & 0xFF) as u8;
        let g = ((hex >> 8) & 0xFF) as u8;
        let b = (hex & 0xFF) as u8;
        assert(((hex >> 16) & 0xFF) == (hex / 65536) % 256) by (bit_vector);
        assert(((hex >> 8) & 0xFF) == (hex / 256) % 256) by (bit_vector);
        assert((hex & 0xFF) == hex % 256) by (bit_vector);
        Self { r, g, b }
    }

    /// The color as text: `#rrggbb`, in lower-case hexadecimal.
    pub fn to_display_string(&self) -> (s: String)
        ensures
            s@ == seq!['#'] + hex2(self.r) + hex2(self.g) + hex2(self.b),
    {
        let mut s = String::new();
        string_push(&mut s, '#');
        string_push(&mut s, hex_char_exec(self.r / 16));
        string_push(&mut s, hex_char_exec(self.r % 16));
        string_push(&mut s, hex_char_exec(self.g / 16));
        string_push(&mut s, hex_char_exec(self.g % 16));
        string_push(&mut s, hex_char_exec(self.b / 16));
        string_push(&mut s, hex_char_exec(self.b % 16));
        proof {
            assert(s@ =~= seq!['#'] + hex2(self.r) + hex2(self.g) + hex2(self.b));
        }
        s
    }
}

/// The sixteen named colors.
#[derive(Debug, Clone, Copy, PartialEq, Eq, Hash, Structural)]
pub enum NamedColor {
    Black,
    Red,
    Green,
    Yellow,
    Blue,
    Magenta,
    Cyan,
    White,
    BrightBlack,
    BrightRed,
    BrightGreen,
    BrightYellow,
    BrightBlue,
    BrightMagenta,
    BrightCyan,
    BrightWhite,
}

/// The number of a named color (0-15).
pub open spec fn named_color_code(c: NamedColor) -> u8 {
    match c {
        NamedColor::Black => 0,
        NamedColor::Red => 1,
        NamedColor::Green => 2,
        NamedColor::Yellow => 3,
        NamedColor::Blue => 4,
        NamedColor::Magenta => 5,
        NamedColor::Cyan => 6,
        NamedColor::White => 7,
        NamedColor::BrightBlack => 8,
        NamedColor::BrightRed => 9,
        NamedColor::BrightGreen => 10,
        NamedColor::BrightYellow => 11,
        NamedColor::BrightBlue => 12,
        NamedColor::BrightMagenta => 13,
        NamedColor::BrightCyan => 14,
        NamedColor::BrightWhite => 15,
    }
}

impl NamedColor {
    /// The named color of a number from 0 to 15; none for larger numbers.
    pub fn from_ansi(code: u8) -> (r: Option<Self>)
        ensures
            code < 16 ==> (r matches Some(c) && named_color_code(c) == code),
            code >= 16 ==> r is None,
    {
        match code {
            0 => Some(NamedColor::Black),
            1 => Some(NamedColor::Red),
            2 => Some(NamedColor::Green),
            3 => Some(NamedColor::Yellow),
            4 => Some(NamedColor::Blue),
            5 => Some(NamedColor::Magenta),
            6 => Some(NamedColor::Cyan),
            7 => Some(NamedColor::White),
            8 => Some(NamedColor::BrightBlack),
            9 => Some(NamedColor::BrightRed),
            10 => Some(NamedColor::BrightGreen),
            11 => Some(NamedColor::BrightYellow),
            12 => Some(NamedColor::BrightBlue),
            13 => Some(NamedColor::BrightMagenta),
            14 => Some(NamedColor::BrightCyan),
            15 => Some(NamedColor::BrightWhite),
            _ => None,
        }
    }
}

/// Colors: named, from the 256-color palette, or 24-bit.
#[derive(Debug, Clone, Copy, PartialEq, Eq, Hash, Structural)]
pub enum Color {
    Named(NamedColor),
    Indexed(u8),
    Rgb(Rgb),
}

impl Color {
    /// A palette color.
    pub fn indexed(index: u8) -> (c: Self)
        ensures
            c == Color::Indexed(index),
    {
        Color::Indexed(index)
    }

    /// A 24-bit color.
    pub fn rgb(r: u8, g: u8, b: u8) -> (c: Self)
        ensures
            c == Color::Rgb(Rgb { r, g, b }),
    {
        Color::Rgb(Rgb::new(r, g, b))
    }
}

/// Underline styles.
#[derive(Debug, Clone, Copy, PartialEq, Eq, Hash, Structural)]
pub enum UnderlineStyle {
    Off,
    Single,
    Double,
    Curly,
    Dotted,
    Dashed,
}

/// Text attributes (select graphic rendition).
#[derive(Debug, Clone, Copy, PartialEq, Eq, Hash, Structural)]
pub struct Attributes {
    pub bold: bool,
    pub dim: bool,
    pub italic: bool,
    pub underline: UnderlineStyle,
    pub blink: bool,
    pub blink_fast: bool,
    pub reverse: bool,
    pub hidden: bool,
    pub strikethrough: bool,
}

/// All attributes off.
pub open spec fn plain_attributes() -> Attributes {
    Attributes {
        bold: false,
        dim: false,
        italic: false,
        underline: UnderlineStyle::Off,
        blink: false,
        blink_fast: false,
        reverse: false,
        hidden: false,
        strikethrough: false,
    }
}

impl Default for Attributes {
    fn default() -> (a: Self)
        ensures
            a == plain_attributes(),
    {
        Self::new()
    }
}

impl Attributes {
    /// All attributes off.
    pub fn new() -> (a: Self)
        ensures
            a == plain_attributes(),
    {
        Attributes {
            bold: false,
            dim: false,
            italic: false,
            underline: UnderlineStyle::Off,
            blink: false,
            blink_fast: false,
            reverse: false,
            hidden: false,
            strikethrough: false,
        }
    }

    /// Turns all attributes off.
    pub fn reset(&mut self)
        ensures
            *final(self) == plain_attributes(),
    {
        *self = Self::new();
    }
}

/// Cursor shapes.
#[derive(Debug, Clone, Copy, PartialEq, Eq, Hash, Structural)]
pub enum CursorShape {
    Block,
    Underline,
    Bar,
}

/// Terminal modes.
#[derive(Debug, Clone, Copy, PartialEq, Eq, Hash, Structural)]
pub enum Mode {
    AppCursor,
    AppKeypad,
    BracketedPaste,
    ShowCursor,
    LineWrap,
    Origin,
    Insert,
    AltScreen,
    MouseX10,
    MouseVt200,
    MouseVt200Highlight,
    MouseButtonEvent,
    MouseAnyEvent,
    MouseFocus,
    MouseSgr,
    MouseUrxvt,
    MouseUtf8,
}

/// Changes of text attributes.
#[derive(Debug, Clone, Copy, PartialEq, Eq, Hash, Structural)]
pub enum AttributeChange {
    Bold,
    NormalIntensity,
    Dim,
    Italic,
    NoItalic,
    Underline(UnderlineStyle),
    NoUnderline,
    Blink,
    BlinkFast,
    NoBlink,
    Reverse,
    NoReverse,
    Hidden,
    NoHidden,
    Strikethrough,
    NoStrikethrough,
}

/// What an escape sequence or a character asks the terminal to do.
/// Lines and columns are counted from 1.
#[derive(Debug, Clone, PartialEq)]
pub enum TerminalAction {
    Print(char),
    Execute(u8),
    CursorUp(usize),
    CursorDown(usize),
    CursorForward(usize),
    CursorBackward(usize),
    CursorGoToLine(usize),
    CursorGoToColumn(usize),
    CursorGoTo { line: usize, col: usize },
    CursorSave,
    CursorRestore,
    SetCursorShape(CursorShape),
    ClearToEndOfScreen,
    ClearToBeginningOfScreen,
    ClearScreen,
    ClearToEndOfLine,
    ClearToBeginningOfLine,
    ClearLine,
    InsertLines(usize),
    DeleteLines(usize),
    EraseChars(usize),
    DeleteChars(usize),
    ScrollUp(usize),
    ScrollDown(usize),
    SetScrollRegion { top: usize, bottom: usize },
    ResetScrollRegion,
    SetForeground(Color),
    SetBackground(Color),
    ResetForeground,
    ResetBackground,
    SetAttribute(AttributeChange),
    ResetAttributes,
    SetMode(Mode),
    UnsetMode(Mode),
    SetTitle(String),
    Bell,
    CarriageReturn,
    LineFeed,
    Backspace,
    Tab,
    ReverseIndex,
    Reset,
    SetHyperlink { url: Option<String>, id: Option<String> },
}

} // verus!
