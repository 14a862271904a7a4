//! Cursor coordinates and the small enums that steer a search or a visual
//! selection.

use vstd::prelude::*;

verus! {

/// The way a search walks through the document.
#[derive(PartialEq, Eq, Structural, Copy, Clone, Debug)]
pub enum SearchDirection {
    Forward,
    Backward,
}

/// The two stages of a visual selection: placing the anchor, then stretching
/// the selection away from it.
#[derive(PartialEq, Eq, Structural, Copy, Clone, Debug)]
pub enum VisualMode {
    Cursor,
    Block,
}

/// A cursor coordinate: row `y`, and in that row token `x` or character `x`,
/// depending on the kind of selection that carries it.
#[derive(Clone, Copy, Debug, Eq, PartialEq, Structural)]
pub struct Position {
    pub x: usize,
    pub y: usize,
}

impl Default for Position {
    fn default() -> (p: Position)
        ensures
            p == (Position { x: 0, y: 0 }),
    {
        Position { x: 0, y: 0 }
    }
}

} // verus!
