//! Where the pointer leaves the local desktop, and how displays are resized.

use vstd::prelude::*;

use crate::config::{EdgeBehavior, EdgePosition};
use crate::domain::arrangement::{ScreenPlacement, Topology, TopologyError};
use crate::domain::display::DesktopLayout;
use crate::domain::geometry::{Point, Rect};
use crate::domain::identity::NodeId;
use crate::domain::input::{InputEvent, InputKind, KeyAction, PhysicalKey};
use crate::domain::topology::Edge;
use crate::runtime::event::node_text;
use crate::saturating::half_of;

verus! {

/// The candidate's bounds begin where the source's end in direction `edge`.
pub open spec fn adjoins(source: Rect, candidate: Rect, edge: Edge) -> bool {
    match edge {
        Edge::Left => candidate.x1() == source.x0(),
        Edge::Right => candidate.x0() == source.x1(),
        Edge::Top => candidate.y1() == source.y0(),
        Edge::Bottom => candidate.y0() == source.y1(),
    }
}

/// Where an edge in this direction begins.
pub open spec fn edge_start(bounds: Rect, edge: Edge) -> int {
    match edge {
        Edge::Left | Edge::Right => bounds.y0(),
        Edge::Top | Edge::Bottom => bounds.x0(),
    }
}

/// The middle of what two parts of touching edges have in common, as an offset
/// on the source's edge.
pub open spec fn common_middle(
    source_start: int,
    source_part: (u32, u32),
    candidate_start: int,
    candidate_part: (u32, u32),
) -> Option<u32> {
    let start = crate::platform::geometry::greatest(
        source_start + source_part.0,
        candidate_start + candidate_part.0,
    );
    let end = crate::platform::geometry::least(
        source_start + source_part.1,
        candidate_start + candidate_part.1,
    );
    if start >= end {
        None
    } else {
        Some((start + (end - start - 1) / 2 - source_start) as u32)
    }
}

/// The middle of what a part of the source's edge has in common with the first
/// of the candidate's parts from `from` on that it meets.
pub open spec fn middle_with(
    source_start: int,
    source_part: (u32, u32),
    candidate_start: int,
    candidate_parts: Seq<(u32, u32)>,
    from: int,
) -> Option<u32>
    decreases candidate_parts.len() - from,
{
    if from < 0 || from >= candidate_parts.len() {
        None
    } else {
        match common_middle(source_start, source_part, candidate_start, candidate_parts[from]) {
            Some(offset) => Some(offset),
            None => middle_with(
                source_start,
                source_part,
                candidate_start,
                candidate_parts,
                from + 1,
            ),
        }
    }
}

/// The same for the first of the source's parts from `from` on that meets any.
pub open spec fn middle_of(
    source_start: int,
    source_parts: Seq<(u32, u32)>,
    candidate_start: int,
    candidate_parts: Seq<(u32, u32)>,
    from: int,
) -> Option<u32>
    decreases source_parts.len() - from,
{
    if from < 0 || from >= source_parts.len() {
        None
    } else {
        match middle_with(
            source_start,
            source_parts[from],
            candidate_start,
            candidate_parts,
            0,
        ) {
            Some(offset) => Some(offset),
            None => middle_of(
                source_start,
                source_parts,
                candidate_start,
                candidate_parts,
                from + 1,
            ),
        }
    }
}

/// An offset on the source's edge from which the candidate is entered.
pub open spec fn shared_offset(
    source: crate::domain::arrangement::PlacementView,
    candidate: crate::domain::arrangement::PlacementView,
    edge: Edge,
) -> Option<u32> {
    if !adjoins(source.bounds, candidate.bounds, edge) {
        None
    } else {
        middle_of(
            edge_start(source.bounds, edge),
            source.layout.segments(edge),
            edge_start(candidate.bounds, edge),
            candidate.layout.segments(edge.facing()),
            0,
        )
    }
}

fn common_offset(
    source_start: i64,
    source_part: (u32, u32),
    candidate_start: i64,
    candidate_part: (u32, u32),
) -> (offset: Option<u32>)
    requires
        i32::MIN <= source_start <= i32::MAX,
        i32::MIN <= candidate_start <= i32::MAX,
    ensures
        offset == common_middle(
            source_start as int,
            source_part,
            candidate_start as int,
            candidate_part,
        ),
{
    let mut start: i64 = source_start + source_part.0 as i64;
    let candidate_begin: i64 = candidate_start + candidate_part.0 as i64;
    if candidate_begin > start {
        start = candidate_begin;
    }
    let mut end: i64 = source_start + source_part.1 as i64;
    let candidate_end: i64 = candidate_start + candidate_part.1 as i64;
    if candidate_end < end {
        end = candidate_end;
    }
    if start >= end {
        return None;
    }
    let middle: i64 = start + (end - start - 1) / 2;
    Some((middle - source_start) as u32)
}

/// An offset on the source's edge from which the candidate is entered.
pub fn shared_edge_offset(
    source: &ScreenPlacement,
    candidate: &ScreenPlacement,
    edge: Edge,
) -> (offset: Option<u32>)
    ensures
        offset == shared_offset(source@, candidate@, edge),
{
    let (touches, source_start, candidate_start): (bool, i64, i64) = match edge {
        Edge::Left => (
            candidate.bounds.right() == source.bounds.left(),
            source.bounds.top(),
            candidate.bounds.top(),
        ),
        Edge::Right => (
            candidate.bounds.left() == source.bounds.right(),
            source.bounds.top(),
            candidate.bounds.top(),
        ),
        Edge::Top => (
            candidate.bounds.bottom() == source.bounds.top(),
            source.bounds.left(),
            candidate.bounds.left(),
        ),
        Edge::Bottom => (
            candidate.bounds.top() == source.bounds.bottom(),
            source.bounds.left(),
            candidate.bounds.left(),
        ),
    };
    if !touches {
        return None;
    }
    let source_parts = source.layout.edge_segments(edge);
    let candidate_parts = candidate.layout.edge_segments(edge.opposite());
    let ghost expected = shared_offset(source@, candidate@, edge);
    let mut outer: usize = 0;
    while outer < source_parts.len()
        invariant
            outer <= source_parts@.len(),
            i32::MIN <= source_start <= i32::MAX,
            i32::MIN <= candidate_start <= i32::MAX,
            expected == shared_offset(source@, candidate@, edge),
            expected == middle_of(
                source_start as int,
                source_parts@,
                candidate_start as int,
                candidate_parts@,
                outer as int,
            ),
        decreases source_parts@.len() - outer,
    {
        let part = source_parts[outer];
        let mut inner: usize = 0;
        while inner < candidate_parts.len()
            invariant
                inner <= candidate_parts@.len(),
                outer < source_parts@.len(),
                part == source_parts@[outer as int],
                i32::MIN <= source_start <= i32::MAX,
                i32::MIN <= candidate_start <= i32::MAX,
                expected == shared_offset(source@, candidate@, edge),
                expected == middle_of(
                    source_start as int,
                    source_parts@,
                    candidate_start as int,
                    candidate_parts@,
                    outer as int,
                ),
                middle_with(
                    source_start as int,
                    part,
                    candidate_start as int,
                    candidate_parts@,
                    0,
                ) == middle_with(
                    source_start as int,
                    part,
                    candidate_start as int,
                    candidate_parts@,
                    inner as int,
                ),
            decreases candidate_parts@.len() - inner,
        {
            if let Some(offset) = common_offset(
                source_start,
                part,
                candidate_start,
                candidate_parts[inner],
            ) {
                return Some(offset);
            }
            inner += 1;
        }
        outer += 1;
    }
    None
}

/// The first other desktop from `from` on that is entered through an edge, and
/// where.
pub open spec fn first_target(
    screens: Seq<crate::domain::arrangement::PlacementView>,
    source: crate::domain::arrangement::PlacementView,
    edge: Edge,
    from: int,
) -> Option<(Seq<char>, u32)>
    decreases screens.len() - from,
{
    if from < 0 || from >= screens.len() {
        None
    } else if screens[from].node == source.node {
        first_target(screens, source, edge, from + 1)
    } else {
        match shared_offset(source, screens[from], edge) {
            Some(offset) => Some((screens[from].node, offset)),
            None => first_target(screens, source, edge, from + 1),
        }
    }
}

/// The node that is entered through an edge, and the offset on the edge: at a
/// known place that place, otherwise any from which another desktop is entered.
pub open spec fn target_of(
    screens: Seq<crate::domain::arrangement::PlacementView>,
    node: Seq<char>,
    edge: Edge,
    position: Option<EdgePosition>,
) -> Option<(Seq<char>, u32)> {
    match crate::domain::arrangement::placement_of(screens, node) {
        None => None,
        Some(source) => match position {
            Some(position) => {
                let offset = position.nearest_pixel(source.length_along(edge) - 1);
                match crate::domain::arrangement::crossing(screens, node, edge, offset) {
                    Some((target, entry)) => Some((target.node, offset as u32)),
                    None => None,
                }
            },
            None => first_target(screens, source, edge, 0),
        },
    }
}

/// The meaning of an activation target.
pub open spec fn target_view(target: Option<(NodeId, u32)>) -> Option<(Seq<char>, u32)> {
    match target {
        Some((node, offset)) => Some((node@, offset)),
        None => None,
    }
}

/// The node that is entered through an edge, and the offset on the edge.
pub fn activation_target(
    topology: &Topology,
    local_node: &NodeId,
    edge: Edge,
    edge_position: Option<EdgePosition>,
) -> (target: Option<(NodeId, u32)>)
    ensures
        target_view(target) == target_of(topology@, local_node@, edge, edge_position),
{
    let source = match topology.screen(local_node) {
        Some(source) => source,
        None => {
            return None;
        },
    };
    if let Some(position) = edge_position {
        let length: u32 = match edge {
            Edge::Left | Edge::Right => source.bounds.size.height.get(),
            Edge::Top | Edge::Bottom => source.bounds.size.width.get(),
        };
        let offset: u32 = position.offset_within(length - 1);
        return match topology.transition(local_node, edge, offset) {
            Some(transition) => Some((transition.target.clone(), offset)),
            None => None,
        };
    }
    let screens = topology.screens();
    let ghost expected = target_of(topology@, local_node@, edge, edge_position);
    let mut index: usize = 0;
    while index < screens.len()
        invariant
            index <= screens@.len(),
            crate::domain::arrangement::placement_views(screens@) == topology@,
            expected == target_of(topology@, local_node@, edge, edge_position),
            expected == first_target(topology@, source@, edge, index as int),
        decreases screens@.len() - index,
    {
        let candidate = &screens[index];
        assert(topology@[index as int] == candidate@);
        if candidate.node != source.node {
            if let Some(offset) = shared_edge_offset(source, candidate, edge) {
                return Some((candidate.node.clone(), offset));
            }
        }
        index += 1;
    }
    None
}

/// The edge is worth capturing: it may be crossed, and something lies beyond.
pub open spec fn is_captured(
    screens: Seq<crate::domain::arrangement::PlacementView>,
    node: Seq<char>,
    behavior: EdgeBehavior,
    edge: Edge,
) -> bool {
    behavior.active_percent(edge) is Some && target_of(screens, node, edge, None) is Some
}

fn captures(
    topology: &Topology,
    local_node: &NodeId,
    edge_behavior: EdgeBehavior,
    edge: Edge,
) -> (result: bool)
    ensures
        result == is_captured(topology@, local_node@, edge_behavior, edge),
{
    edge_behavior.active_interval(edge).is_some() && activation_target(
        topology,
        local_node,
        edge,
        None,
    ).is_some()
}

/// The edges of the local desktop that are captured.
pub fn capture_edges(
    topology: &Topology,
    local_node: &NodeId,
    edge_behavior: EdgeBehavior,
) -> (edges: Vec<Edge>)
    ensures
        edges@.no_duplicates(),
        forall|edge: Edge| #[trigger]
            edges@.contains(edge) <==> is_captured(topology@, local_node@, edge_behavior, edge),
        are_in_order(edges@),
{
    let mut edges: Vec<Edge> = Vec::new();
    let left = captures(topology, local_node, edge_behavior, Edge::Left);
    let right = captures(topology, local_node, edge_behavior, Edge::Right);
    let top = captures(topology, local_node, edge_behavior, Edge::Top);
    let bottom = captures(topology, local_node, edge_behavior, Edge::Bottom);
    enter_edge(&mut edges, Edge::Left, left);
    enter_edge(&mut edges, Edge::Right, right);
    enter_edge(&mut edges, Edge::Top, top);
    enter_edge(&mut edges, Edge::Bottom, bottom);
    edges
}

/// Enters an edge that is captured, behind those that come before it.
fn enter_edge(edges: &mut Vec<Edge>, edge: Edge, captured: bool)
    requires
        are_in_order(old(edges)@),
        forall|other: Edge| #[trigger]
            old(edges)@.contains(other) ==> edge_rank(other) < edge_rank(edge),
    ensures
        are_in_order(final(edges)@),
        final(edges)@.no_duplicates(),
        forall|other: Edge| #[trigger]
            final(edges)@.contains(other) <==> old(edges)@.contains(other) || (captured && other
                == edge),
{
    let ghost before = edges@;
    if captured {
        edges.push(edge);
    }
    proof {
        let after = edges@;
        assert forall|i: int, j: int| 0 <= i < j < after.len() implies edge_rank(
            #[trigger] after[i],
        ) < edge_rank(#[trigger] after[j]) by {
            assert(before.contains(before[i]));
        }
        assert forall|other: Edge| #[trigger]
            after.contains(other) <==> before.contains(other) || (captured && other == edge) by {
            if captured {
                vstd::seq_lib::lemma_seq_contains_after_push(before, edge, other);
            }
        }
    }
}

/// The place of an edge in the order left, right, top, bottom.
pub open spec fn edge_rank(edge: Edge) -> int {
    match edge {
        Edge::Left => 0,
        Edge::Right => 1,
        Edge::Top => 2,
        Edge::Bottom => 3,
    }
}

/// The edges stand in the order left, right, top, bottom.
pub open spec fn are_in_order(edges: Seq<Edge>) -> bool {
    forall|i: int, j: int|
        0 <= i < j < edges.len() ==> edge_rank(#[trigger] edges[i]) < edge_rank(
            #[trigger] edges[j],
        )
}

/// Where the bounds begin along an axis.
pub open spec fn low(bounds: Rect, horizontal: bool) -> int {
    if horizontal {
        bounds.x0()
    } else {
        bounds.y0()
    }
}

/// Where the bounds end along an axis.
pub open spec fn high(bounds: Rect, horizontal: bool) -> int {
    if horizontal {
        bounds.x1()
    } else {
        bounds.y1()
    }
}

/// Where a desktop begins after it got a new length along an axis: it stays
/// attached to a desktop that its bounds met, and grows or shrinks around its
/// middle where they met none. The last desktop that they met counts.
pub open spec fn resized_low(
    screens: Seq<crate::domain::arrangement::PlacementView>,
    node: Seq<char>,
    current: Rect,
    new_length: int,
    horizontal: bool,
    count: int,
) -> int
    decreases count,
{
    if count <= 0 {
        low(current, horizontal) + crate::saturating::half(
            high(current, horizontal) - low(current, horizontal) - new_length,
        )
    } else {
        let neighbor = screens[count - 1];
        let so_far = resized_low(screens, node, current, new_length, horizontal, count - 1);
        if neighbor.node == node {
            so_far
        } else if low(current, horizontal) == high(neighbor.bounds, horizontal) {
            low(current, horizontal)
        } else if high(current, horizontal) == low(neighbor.bounds, horizontal) {
            low(neighbor.bounds, horizontal) - new_length
        } else {
            so_far
        }
    }
}

/// The desktops after one of them got a new layout at a place.
pub open spec fn with_layout_at(
    screens: Seq<crate::domain::arrangement::PlacementView>,
    node: Seq<char>,
    origin: Point,
    layout: crate::domain::display::LayoutView,
) -> Seq<crate::domain::arrangement::PlacementView> {
    screens.map_values(
        |screen: crate::domain::arrangement::PlacementView|
            if screen.node == node {
                crate::domain::arrangement::PlacementView {
                    node: screen.node,
                    bounds: Rect { origin, size: layout.size },
                    layout,
                }
            } else {
                screen
            },
    )
}

/// Where the corner of a resized desktop comes to lie.
pub open spec fn resized_corner(
    screens: Seq<crate::domain::arrangement::PlacementView>,
    node: Seq<char>,
    current: Rect,
    layout: crate::domain::display::LayoutView,
) -> (int, int) {
    (
        resized_low(
            screens,
            node,
            current,
            layout.size.width@ as int,
            true,
            screens.len() as int,
        ),
        resized_low(
            screens,
            node,
            current,
            layout.size.height@ as int,
            false,
            screens.len() as int,
        ),
    )
}

/// The desktops after one of them reported a new layout, before it is known
/// whether they can be arranged that way.
pub open spec fn resized(
    screens: Seq<crate::domain::arrangement::PlacementView>,
    node: Seq<char>,
    layout: crate::domain::display::LayoutView,
) -> Result<Seq<crate::domain::arrangement::PlacementView>, ResizeFault> {
    match crate::domain::arrangement::placement_of(screens, node) {
        None => Err(ResizeFault::UnknownNode(node)),
        Some(current) => if current.layout == layout {
            Ok(screens)
        } else {
            let (x, y) = resized_corner(screens, node, current.bounds, layout);
            if i32::MIN <= x <= i32::MAX && i32::MIN <= y <= i32::MAX {
                Ok(with_layout_at(screens, node, Point { x: x as i32, y: y as i32 }, layout))
            } else {
                Err(ResizeFault::OutOfRange(node))
            }
        },
    }
}

/// Why a desktop cannot be resized.
#[derive(Debug, PartialEq, Eq)]
pub enum ResizeError {
    UnknownNode(NodeId),
    OutOfRange(NodeId),
    Topology(TopologyError),
}

pub ghost enum ResizeFault {
    UnknownNode(Seq<char>),
    OutOfRange(Seq<char>),
    Topology(crate::domain::arrangement::TopologyFault),
}

impl ResizeError {
    /// The error in words.
    pub open spec fn text(self) -> Seq<char> {
        match self {
            ResizeError::UnknownNode(node) => "node `"@ + node@
                + "` is not present in the topology"@,
            ResizeError::OutOfRange(node) => "resized desktop for `"@ + node@
                + "` exceeds the coordinate range"@,
            ResizeError::Topology(error) => error.text(),
        }
    }

    /// The error in words.
    pub fn message(&self) -> (message: String)
        ensures
            message@ == self.text(),
    {
        match self {
            ResizeError::UnknownNode(node) => node_text(
                "node `",
                node,
                "` is not present in the topology",
            ),
            ResizeError::OutOfRange(node) => node_text(
                "resized desktop for `",
                node,
                "` exceeds the coordinate range",
            ),
            ResizeError::Topology(error) => error.message(),
        }
    }
}

impl View for ResizeError {
    type V = ResizeFault;

    open spec fn view(&self) -> ResizeFault {
        match self {
            ResizeError::UnknownNode(node) => ResizeFault::UnknownNode(node@),
            ResizeError::OutOfRange(node) => ResizeFault::OutOfRange(node@),
            ResizeError::Topology(error) => ResizeFault::Topology(error@),
        }
    }
}

fn resized_start(
    screens: &[ScreenPlacement],
    node: &NodeId,
    current: Rect,
    new_length: i64,
    horizontal: bool,
) -> (start: i64)
    requires
        0 < new_length <= u32::MAX,
    ensures
        start == resized_low(
            crate::domain::arrangement::placement_views(screens@),
            node@,
            current,
            new_length as int,
            horizontal,
            screens@.len() as int,
        ),
{
    let ghost views = crate::domain::arrangement::placement_views(screens@);
    let (begin, end): (i64, i64) = if horizontal {
        (current.left(), current.right())
    } else {
        (current.top(), current.bottom())
    };
    let mut start: i64 = begin + half_of(end - begin - new_length);
    let mut index: usize = 0;
    while index < screens.len()
        invariant
            index <= screens@.len(),
            views == crate::domain::arrangement::placement_views(screens@),
            begin == low(current, horizontal),
            end == high(current, horizontal),
            0 < new_length <= u32::MAX,
            start == resized_low(
                views,
                node@,
                current,
                new_length as int,
                horizontal,
                index as int,
            ),
        decreases screens@.len() - index,
    {
        let neighbor = &screens[index];
        assert(views[index as int] == neighbor@);
        if neighbor.node != *node {
            let (neighbor_begin, neighbor_end): (i64, i64) = if horizontal {
                (neighbor.bounds.left(), neighbor.bounds.right())
            } else {
                (neighbor.bounds.top(), neighbor.bounds.bottom())
            };
            if begin == neighbor_end {
                start = begin;
            } else if end == neighbor_begin {
                start = neighbor_begin - new_length;
            }
        }
        index += 1;
    }
    start
}

/// `result` is the arrangement after a node reported a new layout of its
/// desktop, or why there is none.
pub open spec fn is_resizing(
    screens: Seq<crate::domain::arrangement::PlacementView>,
    node: Seq<char>,
    layout: crate::domain::display::LayoutView,
    result: Result<Topology, ResizeError>,
) -> bool {
    match resized(screens, node, layout) {
        Err(fault) => result matches Err(error) && error@ == fault,
        Ok(wanted) => match result {
            Ok(updated) => updated@ == wanted,
            Err(error) => error matches ResizeError::Topology(reason)
                && !crate::domain::arrangement::is_arrangement(wanted) && reason.applies_to(
                wanted,
            ),
        },
    }
}

/// The arrangement after a node reported a new layout of its desktop.
pub fn resize_topology_screen(
    topology: &Topology,
    node: &NodeId,
    layout: &DesktopLayout,
) -> (result: Result<Topology, ResizeError>)
    ensures
        is_resizing(topology@, node@, layout@, result),
{
    let current = match topology.screen(node) {
        Some(current) => current,
        None => {
            return Err(ResizeError::UnknownNode(node.clone()));
        },
    };
    if current.layout == *layout {
        return Ok(topology.clone());
    }
    let bounds = current.bounds;
    let size = layout.size();
    let screens = topology.screens();
    let x: i64 = resized_start(screens, node, bounds, size.width.get() as i64, true);
    let y: i64 = resized_start(screens, node, bounds, size.height.get() as i64, false);
    if x < i32::MIN as i64 || x > i32::MAX as i64 || y < i32::MIN as i64 || y > i32::MAX as i64 {
        return Err(ResizeError::OutOfRange(node.clone()));
    }
    let origin = Point { x: x as i32, y: y as i32 };
    let ghost expected = with_layout_at(topology@, node@, origin, layout@);
    let mut updated: Vec<ScreenPlacement> = Vec::new();
    let mut index: usize = 0;
    while index < screens.len()
        invariant
            index <= screens@.len(),
            crate::domain::arrangement::placement_views(screens@) == topology@,
            size == layout@.size,
            expected == with_layout_at(topology@, node@, origin, layout@),
            updated@.len() == index,
            forall|i: int| 0 <= i < index ==> (#[trigger] updated@[i])@ == expected[i],
        decreases screens@.len() - index,
    {
        let screen = &screens[index];
        assert(topology@[index as int] == screen@);
        if screen.node == *node {
            updated.push(
                ScreenPlacement {
                    node: screen.node.clone(),
                    bounds: Rect::new(origin, size),
                    layout: layout.clone(),
                },
            );
        } else {
            updated.push(screen.clone());
        }
        index += 1;
    }
    assert(crate::domain::arrangement::placement_views(updated@) =~= expected);
    match Topology::new(updated) {
        Ok(updated) => Ok(updated),
        Err(error) => Err(ResizeError::Topology(error)),
    }
}

/// The desktop met another one at the beginning of its extent along an axis,
/// and none at the end only.
pub open spec fn is_attached_low(
    screens: Seq<crate::domain::arrangement::PlacementView>,
    node: Seq<char>,
    current: Rect,
    horizontal: bool,
    count: int,
) -> bool {
    &&& exists|i: int|
        0 <= i < count && (#[trigger] screens[i]).node != node && low(current, horizontal) == high(
            screens[i].bounds,
            horizontal,
        )
    &&& forall|i: int|
        0 <= i < count && (#[trigger] screens[i]).node != node && high(current, horizontal) == low(
            screens[i].bounds,
            horizontal,
        ) ==> low(current, horizontal) == high(screens[i].bounds, horizontal)
}

/// The desktop met another one at the end of its extent along an axis, and none
/// at the beginning.
pub open spec fn is_attached_high(
    screens: Seq<crate::domain::arrangement::PlacementView>,
    node: Seq<char>,
    current: Rect,
    horizontal: bool,
    count: int,
) -> bool {
    &&& exists|i: int|
        0 <= i < count && (#[trigger] screens[i]).node != node && high(current, horizontal) == low(
            screens[i].bounds,
            horizontal,
        )
    &&& forall|i: int|
        0 <= i < count && (#[trigger] screens[i]).node != node ==> low(current, horizontal) != high(
            screens[i].bounds,
            horizontal,
        )
}

/// A resized desktop stays attached on the side where it was attached.
pub proof fn law_resizing_keeps_attachments(
    screens: Seq<crate::domain::arrangement::PlacementView>,
    node: Seq<char>,
    current: Rect,
    new_length: int,
    horizontal: bool,
    count: int,
)
    requires
        0 <= count <= screens.len(),
    ensures
        is_attached_low(screens, node, current, horizontal, count) ==> resized_low(
            screens,
            node,
            current,
            new_length,
            horizontal,
            count,
        ) == low(current, horizontal),
        is_attached_high(screens, node, current, horizontal, count) ==> resized_low(
            screens,
            node,
            current,
            new_length,
            horizontal,
            count,
        ) + new_length == high(current, horizontal),
    decreases count,
{
    if count > 0 {
        law_resizing_keeps_attachments(screens, node, current, new_length, horizontal, count - 1);
        let neighbor = screens[count - 1];
        let meets_low = neighbor.node != node && low(current, horizontal) == high(
            neighbor.bounds,
            horizontal,
        );
        let meets_high = neighbor.node != node && high(current, horizontal) == low(
            neighbor.bounds,
            horizontal,
        );
        if is_attached_low(screens, node, current, horizontal, count) && !meets_low {
            let i = choose|i: int|
                0 <= i < count && (#[trigger] screens[i]).node != node && low(current, horizontal)
                    == high(screens[i].bounds, horizontal);
            assert(i < count - 1);
            assert(is_attached_low(screens, node, current, horizontal, count - 1));
        }
        if is_attached_high(screens, node, current, horizontal, count) && !meets_high {
            let i = choose|i: int|
                0 <= i < count && (#[trigger] screens[i]).node != node && high(current, horizontal)
                    == low(screens[i].bounds, horizontal);
            assert(i < count - 1);
            assert(is_attached_high(screens, node, current, horizontal, count - 1));
        }
    }
}

/// Reporting a layout that is known already changes nothing.
pub proof fn law_known_layouts_change_nothing(
    screens: Seq<crate::domain::arrangement::PlacementView>,
    node: Seq<char>,
)
    requires
        crate::domain::arrangement::placement_of(screens, node) is Some,
    ensures
        resized(
            screens,
            node,
            crate::domain::arrangement::placement_of(screens, node)->Some_0.layout,
        ) == Ok::<Seq<crate::domain::arrangement::PlacementView>, ResizeFault>(screens),
{
}

/// Watches for the key combination that gives the input back.
#[derive(Clone, Copy, Debug, PartialEq, Eq, Structural)]
pub struct EmergencyShortcut {
    pub control: bool,
    pub alt: bool,
}

pub const KEYBOARD_PAGE: u16 = 0x07;

/// The usage is the left or right control key.
pub open spec fn is_control(key: PhysicalKey) -> bool {
    key.usage_page == KEYBOARD_PAGE && (key.usage_id == 0xe0 || key.usage_id == 0xe4)
}

/// The usage is the left or right alt key.
pub open spec fn is_alt(key: PhysicalKey) -> bool {
    key.usage_page == KEYBOARD_PAGE && (key.usage_id == 0xe2 || key.usage_id == 0xe6)
}

/// The usage is the escape key.
pub open spec fn is_escape(key: PhysicalKey) -> bool {
    key.usage_page == KEYBOARD_PAGE && key.usage_id == 0x29
}

impl EmergencyShortcut {
    /// What is held down after an event.
    pub open spec fn after(self, event: InputEvent) -> EmergencyShortcut {
        match event.kind {
            InputKind::Key { key, action } => if is_control(key) {
                EmergencyShortcut { control: action != KeyAction::Release, ..self }
            } else if is_alt(key) {
                EmergencyShortcut { alt: action != KeyAction::Release, ..self }
            } else {
                self
            },
            _ => self,
        }
    }

    /// The event completes the combination.
    pub open spec fn is_completed_by(self, event: InputEvent) -> bool {
        match event.kind {
            InputKind::Key { key, action } => is_escape(key) && action == KeyAction::Press
                && self.control && self.alt,
            _ => false,
        }
    }

    pub fn new() -> (shortcut: EmergencyShortcut)
        ensures
            shortcut == (EmergencyShortcut { control: false, alt: false }),
    {
        EmergencyShortcut { control: false, alt: false }
    }

    /// Takes an event into account. Returns whether it completes the
    /// combination: escape pressed while control and alt are held down.
    pub fn observe(&mut self, event: InputEvent) -> (completed: bool)
        ensures
            completed == old(self).is_completed_by(event),
            *final(self) == old(self).after(event),
    {
        let (key, action): (PhysicalKey, KeyAction) = match event.kind {
            InputKind::Key { key, action } => (key, action),
            _ => {
                return false;
            },
        };
        let pressed = action != KeyAction::Release;
        if key.usage_page != KEYBOARD_PAGE {
            return false;
        }
        if key.usage_id == 0xe0 || key.usage_id == 0xe4 {
            self.control = pressed;
        } else if key.usage_id == 0xe2 || key.usage_id == 0xe6 {
            self.alt = pressed;
        } else if key.usage_id == 0x29 && action == KeyAction::Press {
            return self.control && self.alt;
        }
        false
    }
}

impl Default for EmergencyShortcut {
    fn default() -> (shortcut: EmergencyShortcut)
        ensures
            shortcut == (EmergencyShortcut { control: false, alt: false }),
    {
        EmergencyShortcut::new()
    }
}

} // verus!
