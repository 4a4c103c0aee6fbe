//! Text-mode colors and the screen cursor's attribute byte.

use vstd::prelude::*;

verus! {

/// The sixteen text-mode palette colors.
#[derive(Clone, Copy, Debug, PartialEq, Eq, Structural)]
pub enum Color {
    Black,
    Blue,
    Green,
    Cyan,
    Red,
    Magenta,
    Brown,
    Gray,
    DarkGray,
    BrightBlue,
    BrightGreen,
    BrightCyan,
    BrightRed,
    BrightMagenta,
    Yellow,
    White,
}

/// The palette index of a color: the low nibble of an attribute byte.
pub open spec fn color_code(c: Color) -> u8 {
    match c {
        Color::Black => 0x0,
        Color::Blue => 0x1,
        Color::Green => 0x2,
        Color::Cyan => 0x3,
        Color::Red => 0x4,
        Color::Magenta => 0x5,
        Color::Brown => 0x6,
        Color::Gray => 0x7,
        Color::DarkGray => 0x8,
        Color::BrightBlue => 0x9,
        Color::BrightGreen => 0xA,
        Color::BrightCyan => 0xB,
        Color::BrightRed => 0xC,
        Color::BrightMagenta => 0xD,
        Color::Yellow => 0xE,
        Color::White => 0xF,
    }
}

impl Color {
    /// The palette index of this color.
    pub fn code(&self) -> (r: u8)
        ensures
            r == color_code(*self),
            r < 16,
    {
        match self {
            Color::Black => 0x0,
            Color::Blue => 0x1,
            Color::Green => 0x2,
            Color::Cyan => 0x3,
            Color::Red => 0x4,
            Color::Magenta => 0x5,
            Color::Brown => 0x6,
            Color::Gray => 0x7,
            Color::DarkGray => 0x8,
            Color::BrightBlue => 0x9,
            Color::BrightGreen => 0xA,
            Color::BrightCyan => 0xB,
            Color::BrightRed => 0xC,
            Color::BrightMagenta => 0xD,
            Color::Yellow => 0xE,
            Color::White => 0xF,
        }
    }
}

/// A text-mode screen cursor: a cell position and the colors every
/// written character takes.
pub struct Cursor {
    /// Byte offset of the next cell to write.
    pub position: isize,
    /// Character color.
    pub foreground: Color,
    /// Cell background color.
    pub background: Color,
}

impl Cursor {
    /// The cursor's attribute byte: background palette index in the high
    /// nibble, foreground in the low one.
    pub fn color(&self) -> (r: u8)
        ensures
            r == 16 * color_code(self.background) + color_code(self.foreground),
    {
        let fg = self.foreground.code();
        let bg = self.background.code();
        bg * 16 + fg
    }
}

} // verus!
