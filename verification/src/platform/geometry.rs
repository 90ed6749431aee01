//! The desktop of the host and the barriers around it.

use vstd::prelude::*;

use crate::domain::geometry::{Point, Size};
use crate::domain::nonzero::NonZeroU32;
use crate::domain::topology::Edge;

verus! {

/// The rectangle around all monitors of the host.
#[derive(Clone, Copy, Debug, PartialEq, Eq, Structural)]
pub struct DesktopGeometry {
    pub origin: Point,
    pub size: Size,
    pub monitor_count: u32,
}

/// The place and size of a part of the desktop.
#[derive(Clone, Copy, Debug, PartialEq, Eq, Structural)]
pub struct Rectangle {
    pub x: i64,
    pub y: i64,
    pub width: u64,
    pub height: u64,
}

/// Why the parts of a desktop have no rectangle around them.
#[derive(Clone, Copy, Debug, PartialEq, Eq, Structural)]
pub enum GeometryError {
    NoRegions,
    Width,
    Height,
    OriginX,
    OriginY,
}

impl GeometryError {
    /// The error in words.
    pub fn message(self) -> (message: &'static str)
        ensures
            message@ == match self {
                GeometryError::NoRegions => "the compositor reported no desktop regions"@,
                GeometryError::Width => "desktop width exceeds the supported range"@,
                GeometryError::Height => "desktop height exceeds the supported range"@,
                GeometryError::OriginX => "desktop X origin exceeds the supported range"@,
                GeometryError::OriginY => "desktop Y origin exceeds the supported range"@,
            },
    {
        match self {
            GeometryError::NoRegions => "the compositor reported no desktop regions",
            GeometryError::Width => "desktop width exceeds the supported range",
            GeometryError::Height => "desktop height exceeds the supported range",
            GeometryError::OriginX => "desktop X origin exceeds the supported range",
            GeometryError::OriginY => "desktop Y origin exceeds the supported range",
        }
    }
}

/// Where a stretch of this length ends, no further than the largest coordinate.
pub open spec fn end_of(start: int, length: int, largest: int) -> int {
    if start + length <= largest {
        start + length
    } else {
        largest
    }
}

pub open spec fn least(a: int, b: int) -> int {
    if a <= b {
        a
    } else {
        b
    }
}

pub open spec fn greatest(a: int, b: int) -> int {
    if a >= b {
        a
    } else {
        b
    }
}

/// The left side of the leftmost rectangle.
pub open spec fn left_of(rectangles: Seq<Rectangle>) -> int
    decreases rectangles.len(),
{
    if rectangles.len() <= 1 {
        rectangles[0].x as int
    } else {
        least(left_of(rectangles.drop_last()), rectangles.last().x as int)
    }
}

/// The top of the topmost rectangle.
pub open spec fn top_of(rectangles: Seq<Rectangle>) -> int
    decreases rectangles.len(),
{
    if rectangles.len() <= 1 {
        rectangles[0].y as int
    } else {
        least(top_of(rectangles.drop_last()), rectangles.last().y as int)
    }
}

/// The right end of the rightmost rectangle.
pub open spec fn right_of(rectangles: Seq<Rectangle>) -> int
    decreases rectangles.len(),
{
    if rectangles.len() <= 1 {
        end_of(rectangles[0].x as int, rectangles[0].width as int, i64::MAX as int)
    } else {
        greatest(
            right_of(rectangles.drop_last()),
            end_of(rectangles.last().x as int, rectangles.last().width as int, i64::MAX as int),
        )
    }
}

/// The lower end of the lowest rectangle.
pub open spec fn bottom_of(rectangles: Seq<Rectangle>) -> int
    decreases rectangles.len(),
{
    if rectangles.len() <= 1 {
        end_of(rectangles[0].y as int, rectangles[0].height as int, i64::MAX as int)
    } else {
        greatest(
            bottom_of(rectangles.drop_last()),
            end_of(rectangles.last().y as int, rectangles.last().height as int, i64::MAX as int),
        )
    }
}

/// The first thing that keeps the parts of a desktop from having a geometry.
pub open spec fn geometry_fault(rectangles: Seq<Rectangle>) -> Option<GeometryError> {
    if rectangles.len() == 0 {
        Some(GeometryError::NoRegions)
    } else if !(0 < right_of(rectangles) - left_of(rectangles) <= u32::MAX) {
        Some(GeometryError::Width)
    } else if !(0 < bottom_of(rectangles) - top_of(rectangles) <= u32::MAX) {
        Some(GeometryError::Height)
    } else if !(i32::MIN <= left_of(rectangles) <= i32::MAX) {
        Some(GeometryError::OriginX)
    } else if !(i32::MIN <= top_of(rectangles) <= i32::MAX) {
        Some(GeometryError::OriginY)
    } else {
        None
    }
}

fn end_at(start: i64, length: u64) -> (end: i64)
    ensures
        end == end_of(start as int, length as int, i64::MAX as int),
{
    let end: i128 = start as i128 + length as i128;
    if end <= i64::MAX as i128 {
        end as i64
    } else {
        i64::MAX
    }
}

fn extent(start: i64, end: i64) -> (result: Option<NonZeroU32>)
    requires
        start <= end,
    ensures
        match result {
            Some(length) => length@ == end - start && end > start,
            None => !(0 < end - start <= u32::MAX),
        },
{
    let length: i128 = end as i128 - start as i128;
    if length <= u32::MAX as i128 {
        NonZeroU32::new(length as u32)
    } else {
        None
    }
}

/// The rectangle around the parts of a desktop.
pub fn geometry_from_rectangles(rectangles: &Vec<Rectangle>) -> (result: Result<
    DesktopGeometry,
    GeometryError,
>)
    ensures
        match result {
            Ok(geometry) => {
                &&& geometry_fault(rectangles@) is None
                &&& geometry.origin.x == left_of(rectangles@)
                &&& geometry.origin.y == top_of(rectangles@)
                &&& geometry.size.width@ == right_of(rectangles@) - left_of(rectangles@)
                &&& geometry.size.height@ == bottom_of(rectangles@) - top_of(rectangles@)
                &&& geometry.monitor_count == least(rectangles@.len() as int, u32::MAX as int)
            },
            Err(error) => geometry_fault(rectangles@) == Some(error),
        },
{
    if rectangles.len() == 0 {
        return Err(GeometryError::NoRegions);
    }
    let first = rectangles[0];
    let mut left: i64 = first.x;
    let mut top: i64 = first.y;
    let mut right: i64 = end_at(first.x, first.width);
    let mut bottom: i64 = end_at(first.y, first.height);
    let mut index: usize = 1;
    assert(rectangles@.take(1)[0] == first);
    while index < rectangles.len()
        invariant
            1 <= index <= rectangles@.len(),
            left == left_of(rectangles@.take(index as int)),
            top == top_of(rectangles@.take(index as int)),
            right == right_of(rectangles@.take(index as int)),
            bottom == bottom_of(rectangles@.take(index as int)),
            left <= right,
            top <= bottom,
        decreases rectangles@.len() - index,
    {
        let next = rectangles[index];
        proof {
            let longer = rectangles@.take(index + 1);
            assert(longer.drop_last() =~= rectangles@.take(index as int));
            assert(longer.last() == next);
        }
        if next.x < left {
            left = next.x;
        }
        if next.y < top {
            top = next.y;
        }
        let next_right: i64 = end_at(next.x, next.width);
        if next_right > right {
            right = next_right;
        }
        let next_bottom: i64 = end_at(next.y, next.height);
        if next_bottom > bottom {
            bottom = next_bottom;
        }
        index += 1;
    }
    assert(rectangles@.take(index as int) =~= rectangles@);
    let width = match extent(left, right) {
        Some(width) => width,
        None => {
            return Err(GeometryError::Width);
        },
    };
    let height = match extent(top, bottom) {
        Some(height) => height,
        None => {
            return Err(GeometryError::Height);
        },
    };
    if left < i32::MIN as i64 || left > i32::MAX as i64 {
        return Err(GeometryError::OriginX);
    }
    if top < i32::MIN as i64 || top > i32::MAX as i64 {
        return Err(GeometryError::OriginY);
    }
    let monitor_count: u32 = if rectangles.len() as u64 <= u32::MAX as u64 {
        rectangles.len() as u32
    } else {
        u32::MAX
    };
    Ok(
        DesktopGeometry {
            origin: Point { x: left as i32, y: top as i32 },
            size: Size { width, height },
            monitor_count,
        },
    )
}

/// The rectangle around a desktop holds each of its parts.
pub proof fn law_geometry_holds_every_region(rectangles: Seq<Rectangle>, index: int)
    requires
        0 <= index < rectangles.len(),
    ensures
        left_of(rectangles) <= rectangles[index].x,
        top_of(rectangles) <= rectangles[index].y,
        end_of(rectangles[index].x as int, rectangles[index].width as int, i64::MAX as int)
            <= right_of(rectangles),
        end_of(rectangles[index].y as int, rectangles[index].height as int, i64::MAX as int)
            <= bottom_of(rectangles),
    decreases rectangles.len(),
{
    if rectangles.len() > 1 && index < rectangles.len() - 1 {
        law_geometry_holds_every_region(rectangles.drop_last(), index);
        assert(rectangles.drop_last()[index] == rectangles[index]);
    }
}

/// A part of the desktop that barriers are put around.
#[derive(Clone, Copy, Debug, PartialEq, Eq, Structural)]
pub struct Region {
    pub x: i32,
    pub y: i32,
    pub width: u32,
    pub height: u32,
}

/// A line along one edge of a region: from `(x1, y1)` to `(x2, y2)`.
#[derive(Clone, Copy, Debug, PartialEq, Eq, Structural)]
pub struct BarrierLine {
    pub x1: i32,
    pub y1: i32,
    pub x2: i32,
    pub y2: i32,
}

/// One less, no further than the smallest coordinate.
pub open spec fn before(coordinate: int) -> int {
    if coordinate > i32::MIN {
        coordinate - 1
    } else {
        coordinate
    }
}

/// The line along an edge of a region.
pub open spec fn is_barrier(line: BarrierLine, region: Region, edge: Edge) -> bool {
    let right = end_of(region.x as int, region.width as int, i32::MAX as int);
    let bottom = end_of(region.y as int, region.height as int, i32::MAX as int);
    match edge {
        Edge::Left => line.x1 == region.x && line.y1 == region.y && line.x2 == region.x && line.y2
            == before(bottom),
        Edge::Right => line.x1 == right && line.y1 == region.y && line.x2 == right && line.y2
            == before(bottom),
        Edge::Top => line.x1 == region.x && line.y1 == region.y && line.x2 == before(right)
            && line.y2 == region.y,
        Edge::Bottom => line.x1 == region.x && line.y1 == bottom && line.x2 == before(right)
            && line.y2 == bottom,
    }
}

fn end_within(start: i32, length: u32) -> (end: i32)
    ensures
        end == end_of(start as int, length as int, i32::MAX as int),
{
    let end: i64 = start as i64 + length as i64;
    if end <= i32::MAX as i64 {
        end as i32
    } else {
        i32::MAX
    }
}

fn one_before(coordinate: i32) -> (result: i32)
    ensures
        result == before(coordinate as int),
{
    if coordinate > i32::MIN {
        coordinate - 1
    } else {
        coordinate
    }
}

/// The line along an edge of a region.
pub fn barrier_position(region: Region, edge: Edge) -> (line: BarrierLine)
    ensures
        is_barrier(line, region, edge),
{
    let right: i32 = end_within(region.x, region.width);
    let bottom: i32 = end_within(region.y, region.height);
    match edge {
        Edge::Left => BarrierLine {
            x1: region.x,
            y1: region.y,
            x2: region.x,
            y2: one_before(bottom),
        },
        Edge::Right => BarrierLine { x1: right, y1: region.y, x2: right, y2: one_before(bottom) },
        Edge::Top => BarrierLine {
            x1: region.x,
            y1: region.y,
            x2: one_before(right),
            y2: region.y,
        },
        Edge::Bottom => BarrierLine {
            x1: region.x,
            y1: bottom,
            x2: one_before(right),
            y2: bottom,
        },
    }
}

/// A barrier with the number that it is announced by.
#[derive(Clone, Copy, Debug, PartialEq, Eq, Structural)]
pub struct BarrierMeta {
    pub id: u32,
    pub edge: Edge,
    pub position: BarrierLine,
}

/// The edges in the order in which barriers are numbered.
pub open spec fn edge_at(index: int) -> Edge {
    if index == 0 {
        Edge::Left
    } else if index == 1 {
        Edge::Right
    } else if index == 2 {
        Edge::Top
    } else {
        Edge::Bottom
    }
}

/// `barriers` go around the first regions, four each, numbered from one.
pub open spec fn are_barriers(barriers: Seq<BarrierMeta>, regions: Seq<Region>) -> bool {
    forall|i: int|
        0 <= i < barriers.len() ==> {
            &&& (#[trigger] barriers[i]).id == i + 1
            &&& barriers[i].edge == edge_at(i % 4)
            &&& is_barrier(barriers[i].position, regions[i / 4], edge_at(i % 4))
        }
}

/// The barriers around the regions of a desktop; `None` where there are more
/// than numbers for them.
pub fn desktop_barriers(regions: &Vec<Region>) -> (result: Option<Vec<BarrierMeta>>)
    ensures
        match result {
            Some(barriers) => barriers@.len() == 4 * regions@.len() && are_barriers(
                barriers@,
                regions@,
            ) && barriers@.len() < u32::MAX,
            None => 4 * regions@.len() >= u32::MAX,
        },
{
    let mut barriers: Vec<BarrierMeta> = Vec::new();
    let mut next_id: u32 = 1;
    let mut index: usize = 0;
    while index < regions.len()
        invariant
            index <= regions@.len(),
            barriers@.len() == 4 * index,
            next_id == barriers@.len() + 1,
            are_barriers(barriers@, regions@),
        decreases regions@.len() - index,
    {
        if next_id > u32::MAX - 4 {
            return None;
        }
        let region = regions[index];
        let mut side: usize = 0;
        while side < 4
            invariant
                side <= 4,
                index < regions@.len(),
                region == regions@[index as int],
                barriers@.len() == 4 * index + side,
                next_id == barriers@.len() + 1,
                next_id <= u32::MAX - (4 - side),
                are_barriers(barriers@, regions@),
            decreases 4 - side,
        {
            let edge = match side {
                0 => Edge::Left,
                1 => Edge::Right,
                2 => Edge::Top,
                _ => Edge::Bottom,
            };
            let position = barrier_position(region, edge);
            let ghost earlier = barriers@;
            barriers.push(BarrierMeta { id: next_id, edge, position });
            proof {
                let place = earlier.len() as int;
                assert(place % 4 == side && place / 4 == index);
                assert forall|i: int| 0 <= i < barriers@.len() implies {
                    &&& (#[trigger] barriers@[i]).id == i + 1
                    &&& barriers@[i].edge == edge_at(i % 4)
                    &&& is_barrier(barriers@[i].position, regions@[i / 4], edge_at(i % 4))
                } by {
                    if i < place {
                        assert(barriers@[i] == earlier[i]);
                    }
                }
            }
            next_id += 1;
            side += 1;
        }
        index += 1;
    }
    Some(barriers)
}

/// The barriers that the compositor took: those whose number is not among the
/// refused ones, in their order.
pub open spec fn taken(barriers: Seq<BarrierMeta>, refused: Seq<u32>) -> Seq<BarrierMeta> {
    barriers.filter(|barrier: BarrierMeta| !refused.contains(barrier.id))
}

/// The barriers that the compositor took; `None` where it took none.
pub fn taken_barriers(barriers: &Vec<BarrierMeta>, refused: &Vec<u32>) -> (result: Option<
    Vec<BarrierMeta>,
>)
    ensures
        match result {
            Some(kept) => kept@ == taken(barriers@, refused@) && kept@.len() > 0,
            None => taken(barriers@, refused@).len() == 0,
        },
{
    let mut kept: Vec<BarrierMeta> = Vec::new();
    let mut index: usize = 0;
    while index < barriers.len()
        invariant
            index <= barriers@.len(),
            kept@ == taken(barriers@.take(index as int), refused@),
        decreases barriers@.len() - index,
    {
        let barrier = barriers[index];
        proof {
            let longer = barriers@.take(index + 1);
            assert(longer.drop_last() =~= barriers@.take(index as int));
            assert(longer.last() == barrier);
            reveal(Seq::filter);
        }
        if !holds_id(refused, barrier.id) {
            kept.push(barrier);
        }
        index += 1;
    }
    assert(barriers@.take(index as int) =~= barriers@);
    if kept.len() == 0 {
        None
    } else {
        Some(kept)
    }
}

fn holds_id(ids: &Vec<u32>, id: u32) -> (result: bool)
    ensures
        result == ids@.contains(id),
{
    let mut index: usize = 0;
    while index < ids.len()
        invariant
            index <= ids@.len(),
            forall|i: int| 0 <= i < index ==> #[trigger] ids@[i] != id,
        decreases ids@.len() - index,
    {
        if ids[index] == id {
            return true;
        }
        index += 1;
    }
    false
}

/// The place on the host's desktop that a position within it stands for.
pub fn absolute_position(geometry: DesktopGeometry, position: Point) -> (place: (i64, i64))
    ensures
        place.0 == geometry.origin.x + position.x,
        place.1 == geometry.origin.y + position.y,
{
    (
        geometry.origin.x as i64 + position.x as i64,
        geometry.origin.y as i64 + position.y as i64,
    )
}

/// The way back from an edge that was crossed, in pixels.
pub fn release_offset(edge: Edge) -> (offset: (i32, i32))
    ensures
        offset == match edge {
            Edge::Left => (1i32, 0i32),
            Edge::Right => (-1i32, 0i32),
            Edge::Top => (0i32, 1i32),
            Edge::Bottom => (0i32, -1i32),
        },
{
    match edge {
        Edge::Left => (1, 0),
        Edge::Right => (-1, 0),
        Edge::Top => (0, 1),
        Edge::Bottom => (0, -1),
    }
}

/// The number by which an edge is captured.
pub open spec fn handle_of(edge: Edge) -> u64 {
    match edge {
        Edge::Left => 1,
        Edge::Right => 2,
        Edge::Top => 3,
        Edge::Bottom => 4,
    }
}

pub fn capture_handle(edge: Edge) -> (handle: u64)
    ensures
        handle == handle_of(edge),
{
    match edge {
        Edge::Left => 1,
        Edge::Right => 2,
        Edge::Top => 3,
        Edge::Bottom => 4,
    }
}

/// The edge that is captured by this number.
pub fn capture_edge(handle: u64) -> (edge: Option<Edge>)
    ensures
        match edge {
            Some(edge) => handle_of(edge) == handle,
            None => forall|edge: Edge| #[trigger] handle_of(edge) != handle,
        },
{
    match handle {
        1 => Some(Edge::Left),
        2 => Some(Edge::Right),
        3 => Some(Edge::Top),
        4 => Some(Edge::Bottom),
        _ => None,
    }
}

} // verus!
