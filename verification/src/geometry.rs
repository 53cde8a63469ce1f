//! Points and rectangles in fixed-point world coordinates.

use vstd::prelude::*;

verus! {

/// A 2D point with fixed-point integer coordinates.
#[derive(Clone, Copy, Debug, PartialEq, Eq, Structural)]
pub struct Point {
    pub x: i64,
    pub y: i64,
}

/// An axis-aligned rectangle, given by its two extreme corners.
#[derive(Clone, Copy, Debug, PartialEq, Eq, Structural)]
pub struct Rect {
    pub min: Point,
    pub max: Point,
}

impl Rect {
    /// A rectangle is valid when it has positive extent on both axes.
    pub open spec fn valid(self) -> bool {
        self.min.x < self.max.x && self.min.y < self.max.y
    }

    /// Executable mirror of `valid`.
    pub fn is_valid(&self) -> (r: bool)
        ensures
            r == self.valid(),
    {
        self.min.x < self.max.x && self.min.y < self.max.y
    }
}

/// Whether `p` lies in `r`, inclusive of the minimum corner and exclusive of
/// the maximum corner (the convention of uniform sampling over `r`).
pub open spec fn point_in_rect(p: Point, r: Rect) -> bool {
    &&& r.min.x <= p.x < r.max.x
    &&& r.min.y <= p.y < r.max.y
}

/// The componentwise sum of two points. Meaningful where the sums fit the
/// coordinate type.
pub open spec fn point_sum(a: Point, b: Point) -> Point {
    Point { x: (a.x + b.x) as i64, y: (a.y + b.y) as i64 }
}

/// Whether both coordinates of `p` have magnitude at most `limit`.
pub open spec fn point_within(p: Point, limit: i64) -> bool {
    &&& -limit <= p.x <= limit
    &&& -limit <= p.y <= limit
}

} // verus!
