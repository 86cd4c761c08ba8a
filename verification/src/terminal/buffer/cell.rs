//! Terminal cells: a character with colors and text attributes.

use vstd::prelude::*;

verus! {

/// Terminal colors.
#[derive(Debug, Clone, Copy, PartialEq, Eq, Structural, Hash)]
pub enum Color {
    /// The terminal's default color.
    Default,
    /// Black (ANSI color 0).
    Black,
    /// Red (ANSI color 1).
    Red,
    /// Green (ANSI color 2).
    Green,
    /// Yellow (ANSI color 3).
    Yellow,
    /// Blue (ANSI color 4).
    Blue,
    /// Magenta (ANSI color 5).
    Magenta,
    /// Cyan (ANSI color 6).
    Cyan,
    /// White (ANSI color 7).
    White,
    /// Bright black (ANSI color 8).
    BrightBlack,
    /// Bright red (ANSI color 9).
    BrightRed,
    /// Bright green (ANSI color 10).
    BrightGreen,
    /// Bright yellow (ANSI color 11).
    BrightYellow,
    /// Bright blue (ANSI color 12).
    BrightBlue,
    /// Bright magenta (ANSI color 13).
    BrightMagenta,
    /// Bright cyan (ANSI color 14).
    BrightCyan,
    /// Bright white (ANSI color 15).
    BrightWhite,
    /// An 8-bit palette color.
    Indexed(u8),
    /// A 24-bit color.
    Rgb(u8, u8, u8),
}

impl Default for Color {
    fn default() -> (c: Self)
        ensures
            c == Color::Default,
    {
        Color::Default
    }
}

/// The color of an ANSI color index: the 16 named colors for 0 to 15,
/// else the indexed color.
pub open spec fn ansi_color(index: u8) -> Color {
    if index == 0 { Color::Black }
    else if index == 1 { Color::Red }
    else if index == 2 { Color::Green }
    else if index == 3 { Color::Yellow }
    else if index == 4 { Color::Blue }
    else if index == 5 { Color::Magenta }
    else if index == 6 { Color::Cyan }
    else if index == 7 { Color::White }
    else if index == 8 { Color::BrightBlack }
    else if index == 9 { Color::BrightRed }
    else if index == 10 { Color::BrightGreen }
    else if index == 11 { Color::BrightYellow }
    else if index == 12 { Color::BrightBlue }
    else if index == 13 { Color::BrightMagenta }
    else if index == 14 { Color::BrightCyan }
    else if index == 15 { Color::BrightWhite }
    else { Color::Indexed(index) }
}

impl Color {
    /// The color of an ANSI color index (see [`ansi_color`]).
    pub fn from_ansi(index: u8) -> (c: Self)
        ensures
            c == ansi_color(index),
    {
        match index {
            0 => Color::Black,
            1 => Color::Red,
            2 => Color::Green,
            3 => Color::Yellow,
            4 => Color::Blue,
            5 => Color::Magenta,
            6 => Color::Cyan,
            7 => Color::White,
            8 => Color::BrightBlack,
            9 => Color::BrightRed,
            10 => Color::BrightGreen,
            11 => Color::BrightYellow,
            12 => Color::BrightBlue,
            13 => Color::BrightMagenta,
            14 => Color::BrightCyan,
            15 => Color::BrightWhite,
            _ => Color::Indexed(index),
        }
    }
}

/// Text attributes.
#[derive(Debug, Clone, Copy, PartialEq, Eq, Structural, Hash)]
pub struct Attributes {
    /// Bold
    pub bold: bool,
    /// Dim
    pub dim: bool,
    /// Italic
    pub italic: bool,
    /// Underlined
    pub underline: bool,
    /// Blinking
    pub blink: bool,
    /// Foreground and background swapped
    pub reverse: bool,
    /// Hidden
    pub hidden: bool,
    /// Struck through
    pub strikethrough: bool,
}

/// No attribute set.
pub open spec fn no_attributes() -> Attributes {
    Attributes {
        bold: false,
        dim: false,
        italic: false,
        underline: false,
        blink: false,
        reverse: false,
        hidden: false,
        strikethrough: false,
    }
}

impl Default for Attributes {
    fn default() -> (a: Self)
        ensures
            a == no_attributes(),
    {
        Self {
            bold: false,
            dim: false,
            italic: false,
            underline: false,
            blink: false,
            reverse: false,
            hidden: false,
            strikethrough: false,
        }
    }
}

impl Attributes {
    /// No attribute set.
    pub fn new() -> (a: Self)
        ensures
            a == no_attributes(),
    {
        Self::default()
    }

    /// Unsets every attribute.
    pub fn reset(&mut self)
        ensures
            *final(self) == no_attributes(),
    {
        *self = Self::default();
    }

    /// Whether no attribute is set.
    pub fn is_empty(&self) -> (b: bool)
        ensures
            b == (*self == no_attributes()),
    {
        !self.bold && !self.dim && !self.italic && !self.underline && !self.blink && !self.reverse
            && !self.hidden && !self.strikethrough
    }
}

/// A cell of the terminal grid.
#[derive(Debug, Clone, Copy, PartialEq, Eq, Structural)]
pub struct Cell {
    /// The character
    pub c: char,
    /// Foreground color
    pub fg: Color,
    /// Background color
    pub bg: Color,
    /// Text attributes
    pub attrs: Attributes,
}

/// The blank cell: a space in the default colors, with no attribute.
pub open spec fn blank() -> Cell {
    Cell { c: ' ', fg: Color::Default, bg: Color::Default, attrs: no_attributes() }
}

impl Default for Cell {
    fn default() -> (c: Self)
        ensures
            c == blank(),
    {
        Self { c: ' ', fg: Color::Default, bg: Color::Default, attrs: Attributes::default() }
    }
}

impl Cell {
    /// A cell with a character in the default style.
    pub fn new(c: char) -> (cell: Self)
        ensures
            cell == (Cell { c, ..blank() }),
    {
        Self { c, fg: Color::Default, bg: Color::Default, attrs: Attributes::default() }
    }

    /// A cell with a character and a style.
    pub fn with_style(c: char, fg: Color, bg: Color, attrs: Attributes) -> (cell: Self)
        ensures
            cell == (Cell { c, fg, bg, attrs }),
    {
        Self { c, fg, bg, attrs }
    }

    /// Makes the cell blank.
    pub fn reset(&mut self)
        ensures
            *final(self) == blank(),
    {
        *self = Self::default();
    }

    /// Whether the cell is blank.
    pub fn is_empty(&self) -> (b: bool)
        ensures
            b == (*self == blank()),
    {
        self.c == ' ' && self.fg == Color::Default && self.bg == Color::Default && self.attrs.is_empty()
    }

    /// Makes the cell blank.
    pub fn clear(&mut self)
        ensures
            *final(self) == blank(),
    {
        self.reset();
    }

    /// Sets the character, keeping the style.
    pub fn set_char(&mut self, c: char)
        ensures
            *final(self) == (Cell { c, ..*old(self) }),
    {
        self.c = c;
    }

    /// Sets the foreground color.
    pub fn set_fg(&mut self, fg: Color)
        ensures
            *final(self) == (Cell { fg, ..*old(self) }),
    {
        self.fg = fg;
    }

    /// Sets the background color.
    pub fn set_bg(&mut self, bg: Color)
        ensures
            *final(self) == (Cell { bg, ..*old(self) }),
    {
        self.bg = bg;
    }

    /// Sets the attributes.
    pub fn set_attrs(&mut self, attrs: Attributes)
        ensures
            *final(self) == (Cell { attrs, ..*old(self) }),
    {
        self.attrs = attrs;
    }

    /// Adds attributes to those set.
    pub fn apply_attrs(&mut self, attrs: Attributes)
        ensures
            final(self).c == old(self).c,
            final(self).fg == old(self).fg,
            final(self).bg == old(self).bg,
            final(self).attrs == (Attributes {
                bold: old(self).attrs.bold || attrs.bold,
                dim: old(self).attrs.dim || attrs.dim,
                italic: old(self).attrs.italic || attrs.italic,
                underline: old(self).attrs.underline || attrs.underline,
                blink: old(self).attrs.blink || attrs.blink,
                reverse: old(self).attrs.reverse || attrs.reverse,
                hidden: old(self).attrs.hidden || attrs.hidden,
                strikethrough: old(self).attrs.strikethrough || attrs.strikethrough,
            }),
    {
        self.attrs.bold = self.attrs.bold || attrs.bold;
        self.attrs.dim = self.attrs.dim || attrs.dim;
        self.attrs.italic = self.attrs.italic || attrs.italic;
        self.attrs.underline = self.attrs.underline || attrs.underline;
        self.attrs.blink = self.attrs.blink || attrs.blink;
        self.attrs.reverse = self.attrs.reverse || attrs.reverse;
        self.attrs.hidden = self.attrs.hidden || attrs.hidden;
        self.attrs.strikethrough = self.attrs.strikethrough || attrs.strikethrough;
    }
}

} // verus!
