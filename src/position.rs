use vstd::prelude::*;

verus! {

/// A (column, row) coordinate, used for the cursor, the viewport offset and
/// the targets of document edits.
#[derive(Clone, Copy, Debug, PartialEq, Eq, Structural)]
pub struct Position {
    pub x: u16,
    pub y: u16,
}

impl Position {
    pub fn new(x: u16, y: u16) -> (r: Position)
        ensures
            r.x == x,
            r.y == y,
    {
        Position { x, y }
    }
}

impl Default for Position {
    fn default() -> (r: Position)
        ensures
            r.x == 0,
            r.y == 0,
    {
        Position { x: 0, y: 0 }
    }
}

} // verus!
