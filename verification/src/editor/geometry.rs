//! Rectangles on the canvas that machines are placed on.

use vstd::prelude::*;

use crate::domain::reachability::reachable_members;
use crate::saturating::{half_of, saturating_i64_to_i32};

verus! {

/// Where a machine's desktop lies on the canvas.
#[derive(Clone, Copy, Debug, PartialEq, Eq, Structural)]
pub struct ScreenGeometry {
    pub x: i32,
    pub y: i32,
    pub width: u32,
    pub height: u32,
}

impl ScreenGeometry {
    /// The first column past the desktop.
    pub open spec fn x1(self) -> int {
        self.x + self.width
    }

    /// The first row past the desktop.
    pub open spec fn y1(self) -> int {
        self.y + self.height
    }

    pub open spec fn has_area(self) -> bool {
        self.width > 0 && self.height > 0
    }

    /// Both desktops have a row in common.
    pub open spec fn shares_rows(self, other: ScreenGeometry) -> bool {
        self.y < other.y1() && self.y1() > other.y
    }

    /// Both desktops have a column in common.
    pub open spec fn shares_columns(self, other: ScreenGeometry) -> bool {
        self.x < other.x1() && self.x1() > other.x
    }

    /// The desktops lie side by side.
    pub open spec fn is_beside(self, other: ScreenGeometry) -> bool {
        (self.x1() == other.x || other.x1() == self.x) && self.shares_rows(other)
    }

    /// The desktops lie one above the other.
    pub open spec fn is_stacked(self, other: ScreenGeometry) -> bool {
        (self.y1() == other.y || other.y1() == self.y) && self.shares_columns(other)
    }

    /// The desktops have a stretch of an edge in common.
    pub open spec fn touches(self, other: ScreenGeometry) -> bool {
        self.is_beside(other) || self.is_stacked(other)
    }

    pub open spec fn intersects(self, other: ScreenGeometry) -> bool {
        self.shares_columns(other) && self.shares_rows(other)
    }

    pub fn left(self) -> (x: i64)
        ensures
            x == self.x,
    {
        self.x as i64
    }

    pub fn top(self) -> (y: i64)
        ensures
            y == self.y,
    {
        self.y as i64
    }

    pub fn right(self) -> (x: i64)
        ensures
            x == self.x1(),
    {
        self.left() + self.width as i64
    }

    pub fn bottom(self) -> (y: i64)
        ensures
            y == self.y1(),
    {
        self.top() + self.height as i64
    }

    pub fn overlaps(self, other: ScreenGeometry) -> (result: bool)
        ensures
            result == self.intersects(other),
    {
        self.left() < other.right() && self.right() > other.left() && self.top() < other.bottom()
            && self.bottom() > other.top()
    }

    pub fn shares_edge(self, other: ScreenGeometry) -> (result: bool)
        ensures
            result == self.touches(other),
    {
        let vertical_overlap = self.top() < other.bottom() && self.bottom() > other.top();
        let horizontal_overlap = self.left() < other.right() && self.right() > other.left();
        ((self.right() == other.left() || other.right() == self.left()) && vertical_overlap) || ((
        self.bottom() == other.top() || other.bottom() == self.top()) && horizontal_overlap)
    }
}

/// The value between `low` and `high` that is nearest to `value`.
pub open spec fn clamped(value: int, low: int, high: int) -> int {
    if value < low {
        low
    } else if value > high {
        high
    } else {
        value
    }
}

fn clamp(value: i64, low: i64, high: i64) -> (result: i64)
    ensures
        result == clamped(value as int, low as int, high as int),
{
    if value < low {
        low
    } else if value > high {
        high
    } else {
        value
    }
}

/// The row at the side of `other` that is nearest to where `moved` is.
pub open spec fn row_beside(moved: ScreenGeometry, other: ScreenGeometry) -> int {
    clamped(moved.y as int, other.y - moved.height + 1, other.y1() - 1)
}

/// The column above or below `other` that is nearest to where `moved` is.
pub open spec fn column_beside(moved: ScreenGeometry, other: ScreenGeometry) -> int {
    clamped(moved.x as int, other.x - moved.width + 1, other.x1() - 1)
}

/// A place next to `other`: to its left, to its right, above or below it.
pub open spec fn snap_candidate(moved: ScreenGeometry, other: ScreenGeometry, side: int) -> (
    i32,
    i32,
) {
    let row = crate::saturating::clamp_i32(row_beside(moved, other));
    let column = crate::saturating::clamp_i32(column_beside(moved, other));
    if side == 0 {
        (crate::saturating::clamp_i32(other.x - moved.width), row)
    } else if side == 1 {
        (crate::saturating::clamp_i32(other.x1()), row)
    } else if side == 2 {
        (column, crate::saturating::clamp_i32(other.y - moved.height))
    } else {
        (column, crate::saturating::clamp_i32(other.y1()))
    }
}

/// The places next to `other` that are nearest to where `moved` is.
pub fn snap_candidates(moved: ScreenGeometry, other: ScreenGeometry) -> (places: [(i32, i32); 4])
    requires
        moved.has_area(),
        other.has_area(),
    ensures
        forall|side: int|
            0 <= side < 4 ==> #[trigger] places@[side] == snap_candidate(moved, other, side),
{
    let moved_width: i64 = moved.width as i64;
    let moved_height: i64 = moved.height as i64;
    let side_y: i64 = clamp(
        moved.top(),
        other.top() - moved_height + 1,
        other.bottom() - 1,
    );
    let vertical_x: i64 = clamp(
        moved.left(),
        other.left() - moved_width + 1,
        other.right() - 1,
    );
    [
        (
            saturating_i64_to_i32(other.left() - moved_width),
            saturating_i64_to_i32(side_y),
        ),
        (saturating_i64_to_i32(other.right()), saturating_i64_to_i32(side_y)),
        (
            saturating_i64_to_i32(vertical_x),
            saturating_i64_to_i32(other.top() - moved_height),
        ),
        (saturating_i64_to_i32(vertical_x), saturating_i64_to_i32(other.bottom())),
    ]
}

/// A place next to a desktop touches it and does not overlap it, unless it lies
/// outside the canvas.
pub proof fn law_snapping_touches_the_neighbor(
    moved: ScreenGeometry,
    other: ScreenGeometry,
    side: int,
)
    requires
        moved.has_area(),
        other.has_area(),
        0 <= side < 4,
        i32::MIN <= other.x - moved.width,
        i32::MIN <= other.y - moved.height,
        other.x1() <= i32::MAX,
        other.y1() <= i32::MAX,
    ensures
        ({
            let (x, y) = snap_candidate(moved, other, side);
            let placed = ScreenGeometry { x, y, ..moved };
            placed.touches(other) && !placed.intersects(other)
        }),
{
}

/// Which desktops touch.
pub open spec fn contact(screens: Seq<ScreenGeometry>) -> spec_fn(int, int) -> bool {
    |i: int, j: int| screens[i].touches(screens[j])
}

/// There are desktops, and from each of them the others are reached over edges
/// in common.
pub open spec fn are_connected(screens: Seq<ScreenGeometry>) -> bool {
    &&& screens.len() > 0
    &&& crate::domain::reachability::is_connected(screens.len() as int, contact(screens))
}

pub fn geometries_are_connected(screens: &[ScreenGeometry]) -> (result: bool)
    ensures
        result == are_connected(screens@),
{
    let count: usize = screens.len();
    if count == 0 {
        return false;
    }
    let mut links: Vec<Vec<bool>> = Vec::new();
    let mut i: usize = 0;
    while i < count
        invariant
            i <= count,
            count == screens@.len(),
            links@.len() == i,
            forall|a: int| 0 <= a < i ==> (#[trigger] links@[a])@.len() == count,
            forall|a: int, b: int|
                0 <= a < i && 0 <= b < count ==> #[trigger] links@[a]@[b] == screens@[a].touches(
                    screens@[b],
                ),
        decreases count - i,
    {
        let mut row: Vec<bool> = Vec::new();
        let mut j: usize = 0;
        while j < count
            invariant
                i < count,
                j <= count,
                count == screens@.len(),
                row@.len() == j,
                forall|b: int|
                    0 <= b < j ==> #[trigger] row@[b] == screens@[i as int].touches(screens@[b]),
            decreases count - j,
        {
            row.push(screens[i].shares_edge(screens[j]));
            j += 1;
        }
        links.push(row);
        i += 1;
    }
    let reached = reachable_members(&links);
    let ghost table = crate::domain::reachability::table_relation(links@);
    proof {
        assert forall|a: int, b: int| 0 <= a < count && 0 <= b < count implies #[trigger] table(
            a,
            b,
        ) == contact(screens@)(a, b) by {
            assert(links@[a]@[b] == screens@[a].touches(screens@[b]));
        }
    }
    let mut index: usize = 0;
    while index < count
        invariant
            index <= count,
            count == screens@.len(),
            count == links@.len(),
            count > 0,
            reached@.len() == count,
            table == crate::domain::reachability::table_relation(links@),
            forall|a: int, b: int|
                0 <= a < count && 0 <= b < count ==> #[trigger] table(a, b) == contact(screens@)(
                    a,
                    b,
                ),
            forall|i: int|
                0 <= i < count ==> #[trigger] reached@[i]
                    == crate::domain::reachability::is_reachable(count as int, table, i),
            forall|i: int|
                0 <= i < index ==> #[trigger] crate::domain::reachability::is_reachable(
                    count as int,
                    contact(screens@),
                    i,
                ),
        decreases count - index,
    {
        proof {
            crate::domain::reachability::lemma_same_links_same_reach(
                count as int,
                table,
                contact(screens@),
                index as int,
            );
        }
        if !reached[index] {
            return false;
        }
        index += 1;
    }
    true
}

/// How two touching desktops can be aligned.
#[derive(Clone, Copy, Debug, PartialEq, Eq, Structural)]
pub enum AlignmentAxis {
    /// Side by side with the desktop of this number.
    Vertical(usize),
    /// Above or below the desktop of this number.
    Horizontal(usize),
}

#[derive(Clone, Copy, Debug, PartialEq, Eq, Structural)]
pub enum ScreenAlignment {
    Start,
    Center,
    End,
}

/// How a desktop can be aligned with the one of number `index`.
pub open spec fn axis_between(
    selected: ScreenGeometry,
    other: ScreenGeometry,
    index: usize,
) -> Option<AlignmentAxis> {
    if selected.is_beside(other) {
        Some(AlignmentAxis::Vertical(index))
    } else if selected.is_stacked(other) {
        Some(AlignmentAxis::Horizontal(index))
    } else {
        None
    }
}

pub fn alignment_axis(selected: ScreenGeometry, other: ScreenGeometry, index: usize) -> (axis:
    Option<AlignmentAxis>)
    ensures
        axis == axis_between(selected, other, index),
{
    let vertical_overlap = selected.top() < other.bottom() && selected.bottom() > other.top();
    if (selected.left() == other.right() || selected.right() == other.left()) && vertical_overlap {
        return Some(AlignmentAxis::Vertical(index));
    }
    let horizontal_overlap = selected.left() < other.right() && selected.right() > other.left();
    if (selected.top() == other.bottom() || selected.bottom() == other.top())
        && horizontal_overlap {
        return Some(AlignmentAxis::Horizontal(index));
    }
    None
}

/// Where a stretch of `length` begins that is aligned with one that begins at
/// `start`.
pub open spec fn aligned(
    start: int,
    other_length: int,
    length: int,
    alignment: ScreenAlignment,
) -> i32 {
    crate::saturating::clamp_i32(
        start + match alignment {
            ScreenAlignment::Start => 0,
            ScreenAlignment::Center => crate::saturating::half(other_length - length),
            ScreenAlignment::End => other_length - length,
        },
    )
}

pub fn align_coordinate(
    other_start: i32,
    other_length: u32,
    selected_length: u32,
    alignment: ScreenAlignment,
) -> (coordinate: i32)
    ensures
        coordinate == aligned(
            other_start as int,
            other_length as int,
            selected_length as int,
            alignment,
        ),
{
    let offset: i64 = match alignment {
        ScreenAlignment::Start => 0,
        ScreenAlignment::Center => half_of(other_length as i64 - selected_length as i64),
        ScreenAlignment::End => other_length as i64 - selected_length as i64,
    };
    saturating_i64_to_i32(other_start as i64 + offset)
}

} // verus!
