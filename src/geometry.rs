use vstd::prelude::*;

use crate::direction::Direction;

verus! {

/// An element's bounding box in pixels, as the document measured it.
#[derive(Clone, Copy, Debug, PartialEq, Eq, Structural)]
pub struct Rect {
    pub left: i32,
    pub top: i32,
    pub width: u32,
    pub height: u32,
}

impl Rect {
    pub open spec fn right_spec(&self) -> int {
        self.left + self.width
    }

    pub open spec fn bottom_spec(&self) -> int {
        self.top + self.height
    }

    /// The box's extent along `direction`: its width in a row, its height in
    /// a column.
    pub open spec fn extent_spec(&self, direction: Direction) -> int {
        match direction {
            Direction::Row => self.width as int,
            Direction::Column => self.height as int,
        }
    }

    /// Twice the coordinate of the box's middle along `direction`.
    pub open spec fn double_middle_spec(&self, direction: Direction) -> int {
        match direction {
            Direction::Row => 2 * self.left + self.width,
            Direction::Column => 2 * self.top + self.height,
        }
    }

    pub fn new(left: i32, top: i32, width: u32, height: u32) -> (r: Self)
        ensures
            r == (Rect { left, top, width, height }),
    {
        Rect { left, top, width, height }
    }

    /// The right edge.
    pub fn right(&self) -> (r: i64)
        ensures
            r == self.right_spec(),
    {
        self.left as i64 + self.width as i64
    }

    /// The bottom edge.
    pub fn bottom(&self) -> (r: i64)
        ensures
            r == self.bottom_spec(),
    {
        self.top as i64 + self.height as i64
    }

    /// The box's extent along `direction`.
    pub fn extent(&self, direction: Direction) -> (r: u32)
        ensures
            r == self.extent_spec(direction),
    {
        match direction {
            Direction::Row => self.width,
            Direction::Column => self.height,
        }
    }

    /// Twice the coordinate of the box's middle along `direction`, so that
    /// the middle of an odd extent stays exact.
    pub fn double_middle(&self, direction: Direction) -> (r: i64)
        ensures
            r == self.double_middle_spec(direction),
    {
        match direction {
            Direction::Row => 2 * (self.left as i64) + self.width as i64,
            Direction::Column => 2 * (self.top as i64) + self.height as i64,
        }
    }
}

/// A point lies in a box when it is right of the left edge and at most on
/// the right edge, and likewise below the top edge and at most on the bottom
/// edge. A point on the edge that two adjacent boxes share so belongs to the
/// first of them only.
pub open spec fn inside(rect: Rect, x: int, y: int) -> bool {
    rect.left < x <= rect.right_spec() && rect.top < y <= rect.bottom_spec()
}

/// Whether the point `(x, y)` lies in `rect`.
#[inline]
pub fn is_inside(rect: &Rect, x: i32, y: i32) -> (r: bool)
    ensures
        r == inside(*rect, x as int, y as int),
{
    rect.left < x && (x as i64) <= rect.right() && rect.top < y && (y as i64) <= rect.bottom()
}

} // verus!
