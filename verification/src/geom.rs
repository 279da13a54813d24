//! Grid coordinates. A `Vec2i` is used both as a cell position and as a
//! direction delta; a delta is not bounds-checked itself, only the position
//! that results from applying it.

use vstd::prelude::*;

verus! {

/// A pair of small signed integers: a cell position or a direction delta.
#[derive(PartialEq, Eq, Structural, Clone, Copy, Debug, Hash)]
pub struct Vec2i {
    pub x: i8,
    pub y: i8,
}

impl Vec2i {
    /// True when the coordinate names a cell of a `w` by `h` grid.
    pub open spec fn in_grid(self, w: i8, h: i8) -> bool {
        &&& 0 <= self.x < w
        &&& 0 <= self.y < h
    }

    /// Componentwise sum, used to apply a direction delta to a position.
    pub fn plus(self, rhs: Vec2i) -> (r: Vec2i)
        requires
            i8::MIN <= self.x + rhs.x <= i8::MAX,
            i8::MIN <= self.y + rhs.y <= i8::MAX,
        ensures
            r.x == self.x + rhs.x,
            r.y == self.y + rhs.y,
    {
        Vec2i { x: self.x + rhs.x, y: self.y + rhs.y }
    }
}

} // verus!
