//! The size of the screen and the keys that a terminal reports.

use vstd::prelude::*;

verus! {

/// The part of the screen that shows rows, in character cells.
#[derive(Clone, Copy, Debug, PartialEq, Eq, Structural)]
pub struct Size {
    pub width: u16,
    pub height: u16,
}

impl Size {
    /// The size left for rows on a terminal of `columns` by `lines` cells:
    /// the two lowest lines belong to the status bar and the message bar.
    pub fn new(columns: u16, lines: u16) -> (size: Size)
        ensures
            size.width == columns,
            size.height == if lines >= 2 {
                lines - 2
            } else {
                0
            },
    {
        Size { width: columns, height: if lines >= 2 {
            lines - 2
        } else {
            0
        } }
    }
}

/// A key as the terminal reports it. The enter key is `Char('\n')`.
#[derive(Clone, Copy, Debug, PartialEq, Eq, Structural)]
pub enum Key {
    Backspace,
    Left,
    Right,
    Up,
    Down,
    Home,
    End,
    PageUp,
    PageDown,
    Char(char),
    Esc,
    /// Any key that the navigator has no use for.
    Other,
}

} // verus!
