//! A terminal cell: a glyph with foreground and background colours.
use vstd::prelude::*;
use crate::color::Color;

verus! {

/// One character cell of a terminal.
#[derive(Clone, Copy, PartialEq, Eq, Structural, Debug)]
pub struct Cell {
    pub ch: char,
    pub fg: Color,
    pub bg: Color,
}

/// White on black.
pub open spec fn white_on_black(ch: char) -> Cell {
    Cell {
        ch,
        fg: Color { r: 255, g: 255, b: 255, a: 255 },
        bg: Color { r: 0, g: 0, b: 0, a: 255 },
    }
}

impl Cell {
    /// A cell with the given glyph and colours.
    pub fn new(ch: char, fg: Color, bg: Color) -> (c: Cell)
        ensures
            c == (Cell { ch, fg, bg }),
    {
        Cell { ch, fg, bg }
    }

    /// A blank cell: a space, white on black.
    pub fn empty() -> (c: Cell)
        ensures
            c == white_on_black(' '),
    {
        Cell { ch: ' ', fg: Color::white(), bg: Color::black() }
    }

    /// The glyph `ch`, white on black.
    pub fn from_char(ch: char) -> (c: Cell)
        ensures
            c == white_on_black(ch),
    {
        Cell { ch, fg: Color::white(), bg: Color::black() }
    }

    /// The same cell with glyph `ch`.
    pub fn with_char(self, ch: char) -> (c: Cell)
        ensures
            c == (Cell { ch, ..self }),
    {
        let mut c = self;
        c.ch = ch;
        c
    }

    /// The same cell with foreground `fg`.
    pub fn with_fg(self, fg: Color) -> (c: Cell)
        ensures
            c == (Cell { fg, ..self }),
    {
        let mut c = self;
        c.fg = fg;
        c
    }

    /// The same cell with background `bg`.
    pub fn with_bg(self, bg: Color) -> (c: Cell)
        ensures
            c == (Cell { bg, ..self }),
    {
        let mut c = self;
        c.bg = bg;
        c
    }
}

} // verus!
