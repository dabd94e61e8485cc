//! Plain integer geometry used throughout the backend: logical/physical
//! points, sizes and rectangles.

use vstd::prelude::*;

verus! {

/// A point in logical or physical coordinates.
#[derive(Clone, Copy, Debug, PartialEq, Eq, Structural)]
pub struct Point {
    pub x: i32,
    pub y: i32,
}

/// A size in logical or physical coordinates.
#[derive(Clone, Copy, Debug, PartialEq, Eq, Structural)]
pub struct Size {
    pub w: i32,
    pub h: i32,
}

/// An axis-aligned rectangle.
#[derive(Clone, Copy, Debug, PartialEq, Eq, Structural)]
pub struct Rect {
    pub loc: Point,
    pub size: Size,
}

impl Rect {
    /// Whether this rectangle covers exactly the full output of size `size`.
    pub fn is_full_output(&self, size: Size) -> (r: bool)
        ensures
            r == (*self == (Rect { loc: Point { x: 0, y: 0 }, size })),
    {
        self.loc.x == 0 && self.loc.y == 0 && self.size.w == size.w && self.size.h == size.h
    }
}

} // verus!
