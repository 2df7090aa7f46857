//! Logical coordinates of the compositor space.
//!
//! Points and rectangles use `i32` components whose arithmetic saturates at
//! the bounds of `i32`, the behaviour of Smithay's `Point<i32, Logical>`.

use vstd::prelude::*;

verus! {

/// The value of `v` clamped into the range of `i32`.
pub open spec fn clamp_i32(v: int) -> i32 {
    if v < i32::MIN {
        i32::MIN
    } else if v > i32::MAX {
        i32::MAX
    } else {
        v as i32
    }
}

/// `a + b`, saturating at the bounds of `i32`.
pub fn saturating_add_i32(a: i32, b: i32) -> (r: i32)
    ensures
        r == clamp_i32(a + b),
{
    let s: i64 = a as i64 + b as i64;
    if s < i32::MIN as i64 {
        i32::MIN
    } else if s > i32::MAX as i64 {
        i32::MAX
    } else {
        s as i32
    }
}

/// `a - b`, saturating at the bounds of `i32`.
pub fn saturating_sub_i32(a: i32, b: i32) -> (r: i32)
    ensures
        r == clamp_i32(a - b),
{
    let s: i64 = a as i64 - b as i64;
    if s < i32::MIN as i64 {
        i32::MIN
    } else if s > i32::MAX as i64 {
        i32::MAX
    } else {
        s as i32
    }
}

/// A point of the logical compositor space.
#[derive(Clone, Copy, Debug, PartialEq, Eq, Structural)]
pub struct Point {
    pub x: i32,
    pub y: i32,
}

/// A rectangle of the logical compositor space: its origin and its size.
#[derive(Clone, Copy, Debug, PartialEq, Eq, Structural)]
pub struct Rect {
    pub loc: Point,
    pub size: Point,
}

/// The origin, which a window that has no location falls back to.
pub open spec fn spec_origin() -> Point {
    Point { x: 0, y: 0 }
}

/// Component-wise saturating sum.
pub open spec fn point_add(a: Point, b: Point) -> Point {
    Point { x: clamp_i32(a.x + b.x), y: clamp_i32(a.y + b.y) }
}

/// Component-wise saturating difference.
pub open spec fn point_sub(a: Point, b: Point) -> Point {
    Point { x: clamp_i32(a.x - b.x), y: clamp_i32(a.y - b.y) }
}

impl Point {
    /// The point `(x, y)`.
    pub fn new(x: i32, y: i32) -> (r: Point)
        ensures
            r == (Point { x, y }),
    {
        Point { x, y }
    }

    /// The origin `(0, 0)`.
    pub fn origin() -> (r: Point)
        ensures
            r == spec_origin(),
    {
        Point { x: 0, y: 0 }
    }

    /// `self + other`, each component saturating.
    pub fn plus(self, other: Point) -> (r: Point)
        ensures
            r == point_add(self, other),
    {
        Point { x: saturating_add_i32(self.x, other.x), y: saturating_add_i32(self.y, other.y) }
    }

    /// `self - other`, each component saturating.
    pub fn minus(self, other: Point) -> (r: Point)
        ensures
            r == point_sub(self, other),
    {
        Point { x: saturating_sub_i32(self.x, other.x), y: saturating_sub_i32(self.y, other.y) }
    }
}

impl Rect {
    /// The rectangle at `loc` with the given `size`.
    pub fn new(loc: Point, size: Point) -> (r: Rect)
        ensures
            r == (Rect { loc, size }),
    {
        Rect { loc, size }
    }
}

} // verus!
