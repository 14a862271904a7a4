//! The selection: what is highlighted, and the state of one cell of a row's
//! highlight mask.

use vstd::prelude::*;
use crate::position::Position;

verus! {

/// The kind of a selection. It also fixes how the `x` of a selection's
/// position is read: as a token index for `Token`, as a character index for
/// the other two.
#[derive(Debug, Copy, Clone, Eq, PartialEq)]
pub enum TextMode {
    /// The token under the cursor.
    Token,
    /// The range between the anchor held here and the cursor.
    Visual(Position),
    /// A search match of the length held here; `None` while nothing matches.
    Search(Option<usize>),
}

/// The current selection: a cursor position and the kind of selection.
#[derive(Debug, Copy, Clone, Eq, PartialEq)]
pub struct HighlightedText {
    pub position: Position,
    pub mode: TextMode,
}

impl HighlightedText {
    /// A search selection at `position`; `len` is the length of the match
    /// there, if there is one.
    pub fn new_search(position: Position, len: Option<usize>) -> (h: HighlightedText)
        ensures
            h == (HighlightedText { position, mode: TextMode::Search(len) }),
    {
        HighlightedText { position, mode: TextMode::Search(len) }
    }

    /// The selection of the token that `position` addresses.
    pub fn new_token(position: Position) -> (h: HighlightedText)
        ensures
            h == (HighlightedText { position, mode: TextMode::Token }),
    {
        HighlightedText { position, mode: TextMode::Token }
    }

    /// A visual selection whose anchor and cursor both stand at `position`.
    pub fn new_visual(position: Position) -> (h: HighlightedText)
        ensures
            h == (HighlightedText { position, mode: TextMode::Visual(position) }),
    {
        HighlightedText { position, mode: TextMode::Visual(position) }
    }

    /// Moves the cursor to `position`. The kind stays, and with it the anchor
    /// of a visual selection and the length of a search match.
    pub fn update_position(&mut self, position: Position)
        ensures
            *final(self) == (HighlightedText { position, mode: old(self).mode }),
    {
        self.position = position;
    }
}

/// One cell of a row's highlight mask.
#[derive(PartialEq, Eq, Structural, Clone, Copy, Debug)]
pub enum Type {
    Plain,
    Highlighted,
}

} // verus!
