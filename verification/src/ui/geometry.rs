//! Rectangles of terminal cells.

use vstd::prelude::*;

verus! {

/// A rectangle of cells: its top left corner, and how many columns and rows
/// it spans.
#[derive(Clone, Copy, Debug, PartialEq, Eq, Structural)]
pub struct Area {
    pub x: u16,
    pub y: u16,
    pub width: u16,
    pub height: u16,
}

impl Area {
    pub fn new(x: u16, y: u16, width: u16, height: u16) -> (a: Self)
        ensures
            a == (Area { x, y, width, height }),
    {
        Area { x, y, width, height }
    }
}

} // verus!
