//! Points, sizes and rectangles in desktop pixels.

use vstd::prelude::*;

use crate::domain::nonzero::NonZeroU32;

verus! {

#[derive(Clone, Copy, Debug, PartialEq, Eq, Structural)]
pub struct Point {
    pub x: i32,
    pub y: i32,
}

#[derive(Clone, Copy, Debug, PartialEq, Eq, Structural)]
pub struct Size {
    pub width: NonZeroU32,
    pub height: NonZeroU32,
}

impl Size {
    pub fn new(width: NonZeroU32, height: NonZeroU32) -> (size: Size)
        ensures
            size == (Size { width, height }),
    {
        Size { width, height }
    }
}

#[derive(Clone, Copy, Debug, PartialEq, Eq, Structural)]
pub struct Rect {
    pub origin: Point,
    pub size: Size,
}

impl Rect {
    /// The first pixel column.
    pub open spec fn x0(self) -> int {
        self.origin.x as int
    }

    /// The first pixel row.
    pub open spec fn y0(self) -> int {
        self.origin.y as int
    }

    /// One past the last pixel column.
    pub open spec fn x1(self) -> int {
        self.origin.x + self.size.width@
    }

    /// One past the last pixel row.
    pub open spec fn y1(self) -> int {
        self.origin.y + self.size.height@
    }

    /// The pixel at `(x, y)` lies in the rectangle.
    pub open spec fn covers(self, x: int, y: int) -> bool {
        self.x0() <= x < self.x1() && self.y0() <= y < self.y1()
    }

    /// The vertical extents have a pixel row in common.
    pub open spec fn shares_rows(self, other: Rect) -> bool {
        self.y0() < other.y1() && other.y0() < self.y1()
    }

    /// The horizontal extents have a pixel column in common.
    pub open spec fn shares_columns(self, other: Rect) -> bool {
        self.x0() < other.x1() && other.x0() < self.x1()
    }

    /// The rectangles lie side by side or one above the other and meet along
    /// at least one pixel.
    pub open spec fn touches(self, other: Rect) -> bool {
        ||| (self.x0() == other.x1() || self.x1() == other.x0()) && self.shares_rows(other)
        ||| (self.y0() == other.y1() || self.y1() == other.y0()) && self.shares_columns(other)
    }

    pub fn new(origin: Point, size: Size) -> (rect: Rect)
        ensures
            rect == (Rect { origin, size }),
    {
        Rect { origin, size }
    }

    pub fn left(self) -> (x: i64)
        ensures
            x == self.x0(),
    {
        self.origin.x as i64
    }

    pub fn top(self) -> (y: i64)
        ensures
            y == self.y0(),
    {
        self.origin.y as i64
    }

    pub fn right(self) -> (x: i64)
        ensures
            x == self.x1(),
            x > self.x0(),
    {
        self.left() + self.size.width.get() as i64
    }

    pub fn bottom(self) -> (y: i64)
        ensures
            y == self.y1(),
            y > self.y0(),
    {
        self.top() + self.size.height.get() as i64
    }

    /// The rectangles have a pixel in common.
    pub fn overlaps(self, other: Rect) -> (result: bool)
        ensures
            result == (self.shares_rows(other) && self.shares_columns(other)),
            result <==> exists|x: int, y: int| self.covers(x, y) && other.covers(x, y),
    {
        let result = self.left() < other.right() && self.right() > other.left() && self.top()
            < other.bottom() && self.bottom() > other.top();
        proof {
            let x = if self.x0() < other.x0() {
                other.x0()
            } else {
                self.x0()
            };
            let y = if self.y0() < other.y0() {
                other.y0()
            } else {
                self.y0()
            };
            if result {
                assert(self.covers(x, y) && other.covers(x, y));
            }
        }
        result
    }

    /// The rectangles meet along part of an edge without overlapping.
    pub fn shares_edge(self, other: Rect) -> (result: bool)
        ensures
            result == self.touches(other),
    {
        let vertical_overlap = self.top() < other.bottom() && self.bottom() > other.top();
        let horizontal_overlap = self.left() < other.right() && self.right() > other.left();
        ((self.left() == other.right() || self.right() == other.left()) && vertical_overlap) || ((
        self.top() == other.bottom() || self.bottom() == other.top()) && horizontal_overlap)
    }

    /// The pixel at `point` lies in the rectangle.
    pub fn contains(self, point: Point) -> (result: bool)
        ensures
            result == self.covers(point.x as int, point.y as int),
    {
        self.contains_coordinates(point.x as i64, point.y as i64)
    }

    /// The pixel at `(x, y)` lies in the rectangle.
    pub fn contains_coordinates(self, x: i64, y: i64) -> (result: bool)
        ensures
            result == self.covers(x as int, y as int),
    {
        x >= self.left() && x < self.right() && y >= self.top() && y < self.bottom()
    }
}

/// Sharing an edge does not depend on which rectangle is named first.
pub proof fn law_touching_is_symmetric(a: Rect, b: Rect)
    ensures
        a.touches(b) == b.touches(a),
{
}

/// Rectangles that share an edge have no pixel in common.
pub proof fn law_touching_excludes_overlap(a: Rect, b: Rect, x: int, y: int)
    requires
        a.size.width@ > 0,
        a.size.height@ > 0,
        b.size.width@ > 0,
        b.size.height@ > 0,
        a.touches(b),
    ensures
        !(a.covers(x, y) && b.covers(x, y)),
{
}

} // verus!
