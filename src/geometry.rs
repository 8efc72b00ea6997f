//! Integer geometry in device pixels: points, extents and the rectangle test
//! used by hit-testing.

use vstd::prelude::*;

verus! {

/// A position in the coordinate space of a control's parent.
#[derive(Clone, Copy, Debug, PartialEq, Eq, Structural)]
pub struct Point {
    pub x: i32,
    pub y: i32,
}

/// A width and a height. A rectangle with a width or height of zero or less
/// contains no point.
#[derive(Clone, Copy, Debug, PartialEq, Eq, Structural)]
pub struct Size {
    pub width: i32,
    pub height: i32,
}

impl Point {
    pub fn new(x: i32, y: i32) -> (r: Point)
        ensures
            r.x == x,
            r.y == y,
    {
        Point { x, y }
    }
}

impl Size {
    pub fn new(width: i32, height: i32) -> (r: Size)
        ensures
            r.width == width,
            r.height == height,
    {
        Size { width, height }
    }
}

/// Whether the rectangle at `location` with extent `size` contains `(x, y)`.
/// The left and top edges belong to the rectangle, the right and bottom edges
/// do not.
pub open spec fn rect_contains(location: Point, size: Size, x: int, y: int) -> bool {
    &&& location.x <= x
    &&& x < location.x + size.width
    &&& location.y <= y
    &&& y < location.y + size.height
}

pub fn contains_pt(location: Point, size: Size, x: i32, y: i32) -> (r: bool)
    ensures
        r == rect_contains(location, size, x as int, y as int),
{
    location.x <= x && (x as i64) < location.x as i64 + size.width as i64 && location.y <= y
        && (y as i64) < location.y as i64 + size.height as i64
}

} // verus!
