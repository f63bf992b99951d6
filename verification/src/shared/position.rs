use vstd::prelude::*;

verus! {

/// A point of the plane in which entities move, in homogeneous coordinates:
/// `x` runs along a row (the column axis), `y` down the rows, and `z` is the
/// scale, 1 for a point at which an entity stands.
#[derive(Debug, Clone, Copy, PartialEq, Eq, Structural, Hash)]
pub struct Position {
    pub x: i64,
    pub y: i64,
    pub z: i64,
}

impl Position {
    /// The point (`x`, `y`) at the scale 1.
    pub fn at(x: i64, y: i64) -> (p: Position)
        ensures
            p == (Position { x, y, z: 1 }),
    {
        Position { x, y, z: 1 }
    }
}

} // verus!
