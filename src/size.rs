use vstd::prelude::*;

verus! {

/// The visible dimensions of the editing area, in columns and rows.
pub struct Size {
    pub width: u16,
    pub height: u16,
}

impl Size {
    pub fn new(width: u16, height: u16) -> (r: Size)
        ensures
            r.width == width,
            r.height == height,
    {
        Size { width, height }
    }
}

} // verus!
