use vstd::prelude::*;

verus! {

/// A cell position on an output surface, counted from the top-left corner.
#[derive(Clone, Copy, Debug, PartialEq, Eq, Structural)]
pub struct Coordinate {
    pub x: u32,
    pub y: u32,
}

impl Coordinate {
    pub fn new(x: u32, y: u32) -> (coordinate: Self)
        ensures
            coordinate.x == x,
            coordinate.y == y,
    {
        Self { x, y }
    }
}

} // verus!
