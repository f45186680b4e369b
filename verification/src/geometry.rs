//! Integer logical-coordinate geometry.
//!
//! Layer-surface geometry is reported by the stacking collaborator in whole
//! logical pixels, so positions and sizes are kept as `i64` here.

use vstd::prelude::*;

verus! {

/// A point in logical coordinates.
#[derive(Clone, Copy, Debug, PartialEq, Eq, Structural)]
pub struct Point {
    pub x: i64,
    pub y: i64,
}

/// A size in logical coordinates.
#[derive(Clone, Copy, Debug, PartialEq, Eq, Structural)]
pub struct Size {
    pub w: i64,
    pub h: i64,
}

/// A rectangle in logical coordinates.
#[derive(Clone, Copy, Debug, PartialEq, Eq, Structural)]
pub struct Rect {
    pub loc: Point,
    pub size: Size,
}

impl Size {
    /// Whether both extents are strictly positive, i.e. the size encloses at
    /// least one pixel.
    pub open spec fn spec_is_positive(&self) -> bool {
        self.w > 0 && self.h > 0
    }

    /// Whether both extents are strictly positive.
    pub fn is_positive(&self) -> (r: bool)
        ensures
            r == self.spec_is_positive(),
    {
        self.w > 0 && self.h > 0
    }

    /// The all-zero size.
    pub fn zero() -> (r: Size)
        ensures
            r == (Size { w: 0, h: 0 }),
    {
        Size { w: 0, h: 0 }
    }
}

impl Point {
    /// The origin.
    pub fn zero() -> (r: Point)
        ensures
            r == (Point { x: 0, y: 0 }),
    {
        Point { x: 0, y: 0 }
    }

    /// The sum of two points, coordinate by coordinate, as an integer value
    /// truncated into `i64`; callers keep coordinates small enough that no
    /// truncation happens.
    pub open spec fn spec_add(self, other: Point) -> Point {
        Point { x: (self.x + other.x) as i64, y: (self.y + other.y) as i64 }
    }

    /// The sum of two points, coordinate by coordinate.
    pub fn add(self, other: Point) -> (r: Point)
        requires
            i64::MIN <= self.x + other.x <= i64::MAX,
            i64::MIN <= self.y + other.y <= i64::MAX,
        ensures
            r == self.spec_add(other),
    {
        Point { x: self.x + other.x, y: self.y + other.y }
    }

    /// The difference of two points, coordinate by coordinate, truncated
    /// into `i64` like [`Point::spec_add`].
    pub open spec fn spec_sub(self, other: Point) -> Point {
        Point { x: (self.x - other.x) as i64, y: (self.y - other.y) as i64 }
    }

    /// The difference of two points, coordinate by coordinate.
    pub fn sub(self, other: Point) -> (r: Point)
        requires
            i64::MIN <= self.x - other.x <= i64::MAX,
            i64::MIN <= self.y - other.y <= i64::MAX,
        ensures
            r == self.spec_sub(other),
    {
        Point { x: self.x - other.x, y: self.y - other.y }
    }
}

} // verus!
