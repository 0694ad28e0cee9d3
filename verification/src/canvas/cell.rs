//! A single cell of the canvas.
use vstd::prelude::*;

verus! {

/// One display column of the canvas. A wide character occupies its own cell
/// and a continuation cell to its right.
#[derive(Debug, Clone, Copy, PartialEq, Eq, Structural)]
pub struct Cell {
    pub ch: char,
    pub is_continuation: bool,
}

impl Cell {
    /// An empty cell.
    pub fn space() -> (c: Cell)
        ensures
            c == (Cell { ch: ' ', is_continuation: false }),
    {
        Cell { ch: ' ', is_continuation: false }
    }

    /// A cell holding `ch`.
    pub fn new(ch: char) -> (c: Cell)
        ensures
            c == (Cell { ch, is_continuation: false }),
    {
        Cell { ch, is_continuation: false }
    }

    /// The right half of a wide character.
    pub fn continuation() -> (c: Cell)
        ensures
            c == (Cell { ch: ' ', is_continuation: true }),
    {
        Cell { ch: ' ', is_continuation: true }
    }
}

} // verus!
