//! Points, sizes and rectangles for addressing pixels.
//!
//! A `Point` is a signed coordinate pair, a `Size` an unsigned extent, and a
//! `Rectangle` a point together with a size.  All reasoning about which pixels
//! a rectangle covers goes through the spec function [`Rectangle::spec_contains`].

use vstd::prelude::*;

verus! {

/// A signed 2D coordinate.
#[derive(Clone, Copy, Debug, PartialEq, Eq, Structural)]
pub struct Point {
    /// Horizontal coordinate, growing to the right.
    pub x: i32,
    /// Vertical coordinate, growing downwards.
    pub y: i32,
}

impl Point {
    /// Creates a point from its two coordinates.
    pub fn new(x: i32, y: i32) -> (r: Point)
        ensures
            r.x == x,
            r.y == y,
    {
        Point { x, y }
    }

    /// The origin, `(0, 0)`.
    pub fn zero() -> (r: Point)
        ensures
            r.x == 0,
            r.y == 0,
    {
        Point { x: 0, y: 0 }
    }
}

/// An unsigned 2D extent.
#[derive(Clone, Copy, Debug, PartialEq, Eq, Structural)]
pub struct Size {
    /// Horizontal extent in pixels.
    pub width: u32,
    /// Vertical extent in pixels.
    pub height: u32,
}

impl Size {
    /// Creates a size from a width and a height.
    pub fn new(width: u32, height: u32) -> (r: Size)
        ensures
            r.width == width,
            r.height == height,
    {
        Size { width, height }
    }
}

/// An axis-aligned rectangle: a top-left corner and a size.
///
/// The rectangle covers the half-open coordinate ranges
/// `top_left.x .. top_left.x + size.width` and
/// `top_left.y .. top_left.y + size.height`.
#[derive(Clone, Copy, Debug, PartialEq, Eq, Structural)]
pub struct Rectangle {
    /// The corner with the smallest coordinates.
    pub top_left: Point,
    /// The extent of the rectangle.
    pub size: Size,
}

impl Rectangle {
    /// Whether the rectangle covers the (mathematical) coordinate `(x, y)`.
    pub open spec fn spec_contains(self, x: int, y: int) -> bool {
        &&& self.top_left.x <= x < self.top_left.x + self.size.width
        &&& self.top_left.y <= y < self.top_left.y + self.size.height
    }

    /// Creates a rectangle from its top-left corner and size.
    pub fn new(top_left: Point, size: Size) -> (r: Rectangle)
        ensures
            r.top_left == top_left,
            r.size == size,
    {
        Rectangle { top_left, size }
    }

    /// Whether the rectangle covers the point `p`.
    pub fn contains(&self, p: Point) -> (r: bool)
        ensures
            r == self.spec_contains(p.x as int, p.y as int),
    {
        let x = p.x as i64;
        let y = p.y as i64;
        let left = self.top_left.x as i64;
        let top = self.top_left.y as i64;
        x >= left && y >= top && x - left < self.size.width as i64 && y - top < self.size.height as i64
    }

    /// The largest rectangle covered by both `self` and `other`.
    ///
    /// When the two rectangles do not overlap, the result is an empty
    /// rectangle (zero width or zero height), which covers no point.
    pub fn intersection(&self, other: &Rectangle) -> (r: Rectangle)
        ensures
            forall|x: int, y: int|
                r.spec_contains(x, y) <==> self.spec_contains(x, y) && other.spec_contains(x, y),
    {
        let left = if self.top_left.x >= other.top_left.x {
            self.top_left.x
        } else {
            other.top_left.x
        };
        let top = if self.top_left.y >= other.top_left.y {
            self.top_left.y
        } else {
            other.top_left.y
        };
        let self_right = self.top_left.x as i64 + self.size.width as i64;
        let other_right = other.top_left.x as i64 + other.size.width as i64;
        let right = if self_right <= other_right {
            self_right
        } else {
            other_right
        };
        let self_bottom = self.top_left.y as i64 + self.size.height as i64;
        let other_bottom = other.top_left.y as i64 + other.size.height as i64;
        let bottom = if self_bottom <= other_bottom {
            self_bottom
        } else {
            other_bottom
        };
        if right > left as i64 && bottom > top as i64 {
            Rectangle {
                top_left: Point { x: left, y: top },
                size: Size {
                    width: (right - left as i64) as u32,
                    height: (bottom - top as i64) as u32,
                },
            }
        } else {
            Rectangle { top_left: Point { x: left, y: top }, size: Size { width: 0, height: 0 } }
        }
    }
}

} // verus!
