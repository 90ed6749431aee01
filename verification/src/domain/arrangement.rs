//! Node desktops arranged by their pixel bounds in one coordinate space.
//!
//! Where the grid of [`crate::domain::topology`] knows only which slots are
//! neighbours, an arrangement gives every desktop an exact place, so a crossing
//! keeps the pixel row or column that it happens on.

use vstd::prelude::*;
use vstd::string::*;

use crate::domain::display::{DesktopLayout, DesktopLayoutError};
use crate::domain::geometry::{Point, Rect};
use crate::domain::identity::NodeId;
use crate::domain::reachability::reachable_members;
use crate::domain::topology::Edge;

verus! {

/// One node's desktop: where it lies, and the monitors that it consists of.
#[derive(Debug, Eq)]
pub struct ScreenPlacement {
    pub node: NodeId,
    pub bounds: Rect,
    pub layout: DesktopLayout,
}

pub ghost struct PlacementView {
    pub node: Seq<char>,
    pub bounds: Rect,
    pub layout: crate::domain::display::LayoutView,
}

impl View for ScreenPlacement {
    type V = PlacementView;

    open spec fn view(&self) -> PlacementView {
        PlacementView { node: self.node@, bounds: self.bounds, layout: self.layout@ }
    }
}

impl PlacementView {
    /// The monitors form a desktop of the size that is placed.
    pub open spec fn is_coherent(self) -> bool {
        self.layout.is_valid() && self.layout.size == self.bounds.size
    }

    /// The number of pixels along an edge.
    pub open spec fn length_along(self, edge: Edge) -> int {
        crate::domain::topology::length_along(self.bounds.size, edge)
    }

    /// The pixel just beyond `edge`, `offset` along it.
    pub open spec fn pixel_beyond(self, edge: Edge, offset: int) -> (int, int) {
        match edge {
            Edge::Left => (self.bounds.x0() - 1, self.bounds.y0() + offset),
            Edge::Right => (self.bounds.x1(), self.bounds.y0() + offset),
            Edge::Top => (self.bounds.x0() + offset, self.bounds.y0() - 1),
            Edge::Bottom => (self.bounds.x0() + offset, self.bounds.y1()),
        }
    }

    /// One of the desktop's monitors shows the pixel at `(x, y)`.
    pub open spec fn shows(self, x: int, y: int) -> bool {
        &&& self.bounds.covers(x, y)
        &&& self.layout.shows(x - self.bounds.x0(), y - self.bounds.y0())
    }
}

impl ScreenPlacement {
    /// A desktop of one monitor.
    pub fn single(node: NodeId, bounds: Rect) -> (screen: ScreenPlacement)
        ensures
            screen.node == node,
            screen.bounds == bounds,
            screen.layout@ == crate::domain::display::LayoutView::whole(bounds.size),
            screen@.is_coherent(),
    {
        let layout = DesktopLayout::single(bounds.size);
        ScreenPlacement { node, bounds, layout }
    }

    /// A desktop of several monitors with its top left corner at `origin`.
    pub fn with_layout(node: NodeId, origin: Point, layout: DesktopLayout) -> (result: Result<
        ScreenPlacement,
        DesktopLayoutError,
    >)
        ensures
            result is Ok <==> layout@.is_valid(),
            result matches Ok(screen) ==> screen.node == node && screen.bounds == (Rect {
                origin,
                size: layout@.size,
            }) && screen.layout == layout && screen@.is_coherent(),
            result matches Err(error) ==> error.applies_to(layout@),
    {
        match layout.validate() {
            Ok(()) => {
                let bounds = Rect::new(origin, layout.size());
                Ok(ScreenPlacement { node, bounds, layout })
            },
            Err(error) => Err(error),
        }
    }
}

impl Clone for ScreenPlacement {
    fn clone(&self) -> (copy: ScreenPlacement)
        ensures
            copy@ == self@,
            copy.node == self.node,
    {
        ScreenPlacement {
            node: self.node.clone(),
            bounds: self.bounds,
            layout: self.layout.clone(),
        }
    }
}

impl PartialEq for ScreenPlacement {
    fn eq(&self, other: &ScreenPlacement) -> (result: bool) {
        self.node == other.node && self.bounds == other.bounds && self.layout == other.layout
    }
}

impl vstd::std_specs::cmp::PartialEqSpecImpl for ScreenPlacement {
    open spec fn obeys_eq_spec() -> bool {
        true
    }

    open spec fn eq_spec(&self, other: &ScreenPlacement) -> bool {
        self@ == other@
    }
}

/// Where an edge crossing leads.
#[derive(Clone, Copy, Debug, PartialEq, Eq)]
pub struct Transition<'a> {
    pub target: &'a NodeId,
    pub local_position: Point,
}

/// The views of a list of placements.
pub open spec fn placement_views(screens: Seq<ScreenPlacement>) -> Seq<PlacementView> {
    screens.map_values(|screen: ScreenPlacement| screen@)
}

/// `index` is where the first desktop of `node` stands.
pub open spec fn is_first_of_node(
    screens: Seq<PlacementView>,
    node: Seq<char>,
    index: int,
) -> bool {
    &&& 0 <= index < screens.len()
    &&& screens[index].node == node
    &&& forall|i: int| 0 <= i < index ==> (#[trigger] screens[i]).node != node
}

/// The node has a desktop in the arrangement.
pub open spec fn has_node(screens: Seq<PlacementView>, node: Seq<char>) -> bool {
    exists|i: int| 0 <= i < screens.len() && (#[trigger] screens[i]).node == node
}

/// The desktop of `node`.
pub open spec fn placement_of(screens: Seq<PlacementView>, node: Seq<char>) -> Option<
    PlacementView,
> {
    if exists|index: int| is_first_of_node(screens, node, index) {
        Some(screens[choose|index: int| is_first_of_node(screens, node, index)])
    } else {
        None
    }
}

pub proof fn lemma_placement_of(screens: Seq<PlacementView>, node: Seq<char>, index: int)
    requires
        is_first_of_node(screens, node, index),
    ensures
        placement_of(screens, node) == Some(screens[index]),
{
    let chosen = choose|i: int| is_first_of_node(screens, node, i);
    assert(is_first_of_node(screens, node, chosen));
    if chosen < index {
        assert(screens[chosen].node != node);
    } else if index < chosen {
        assert(screens[index].node != node);
    }
}

/// A node with a desktop has a first one.
pub proof fn lemma_placement_exists(screens: Seq<PlacementView>, node: Seq<char>)
    ensures
        placement_of(screens, node) is Some <==> has_node(screens, node),
        placement_of(screens, node) matches Some(screen) ==> screen.node == node && exists|i: int|
            0 <= i < screens.len() && #[trigger] screens[i] == screen,
{
    if has_node(screens, node) {
        let i = choose|i: int| 0 <= i < screens.len() && (#[trigger] screens[i]).node == node;
        lemma_first_of_node(screens, node, i);
    }
    if exists|index: int| is_first_of_node(screens, node, index) {
        let index = choose|index: int| is_first_of_node(screens, node, index);
        assert(screens[index].node == node);
    }
}

proof fn lemma_first_of_node(screens: Seq<PlacementView>, node: Seq<char>, i: int)
    requires
        0 <= i < screens.len(),
        screens[i].node == node,
    ensures
        exists|index: int| is_first_of_node(screens, node, index),
    decreases i,
{
    if exists|j: int| 0 <= j < i && (#[trigger] screens[j]).node == node {
        let j = choose|j: int| 0 <= j < i && (#[trigger] screens[j]).node == node;
        lemma_first_of_node(screens, node, j);
    } else {
        assert(is_first_of_node(screens, node, i));
    }
}

/// The bounds have a pixel in common.
pub open spec fn bounds_overlap(a: Rect, b: Rect) -> bool {
    a.shares_rows(b) && a.shares_columns(b)
}

/// An earlier desktop belongs to the same node.
pub open spec fn repeats_node(screens: Seq<PlacementView>, index: int) -> bool {
    exists|i: int| 0 <= i < index && (#[trigger] screens[i]).node == screens[index].node
}

/// `first` is where the first desktop stands that the one at `index` overlaps.
pub open spec fn is_first_overlapped(
    screens: Seq<PlacementView>,
    first: int,
    index: int,
) -> bool {
    &&& 0 <= first < index
    &&& bounds_overlap(screens[first].bounds, screens[index].bounds)
    &&& forall|i: int|
        0 <= i < first ==> !bounds_overlap(
            (#[trigger] screens[i]).bounds,
            screens[index].bounds,
        )
}

/// The desktop at `index` has a node and a place of its own.
pub open spec fn is_placed_well(screens: Seq<PlacementView>, index: int) -> bool {
    &&& !repeats_node(screens, index)
    &&& forall|i: int|
        0 <= i < index ==> !bounds_overlap(
            (#[trigger] screens[i]).bounds,
            screens[index].bounds,
        )
}

/// Every desktop has a node and a place of its own.
pub open spec fn all_placed_well(screens: Seq<PlacementView>) -> bool {
    forall|i: int| 0 <= i < screens.len() ==> #[trigger] is_placed_well(screens, i)
}

/// `index` is where the first badly placed desktop stands.
pub open spec fn is_first_misplaced(screens: Seq<PlacementView>, index: int) -> bool {
    &&& 0 <= index < screens.len()
    &&& !is_placed_well(screens, index)
    &&& forall|i: int| 0 <= i < index ==> #[trigger] is_placed_well(screens, i)
}

/// Desktops that meet along part of an edge.
pub open spec fn edge_adjacency(screens: Seq<PlacementView>) -> spec_fn(int, int) -> bool {
    |i: int, j: int| screens[i].bounds.touches(screens[j].bounds)
}

/// A chain of touching desktops leads from the first to the one at `index`.
pub open spec fn is_joined(screens: Seq<PlacementView>, index: int) -> bool {
    crate::domain::reachability::is_reachable(
        screens.len() as int,
        edge_adjacency(screens),
        index,
    )
}

/// The desktop has at least one pixel.
pub open spec fn has_area(screen: PlacementView) -> bool {
    screen.bounds.size.width@ > 0 && screen.bounds.size.height@ > 0
}

/// One or more desktops without overlap, all joined to the first.
pub open spec fn is_arrangement(screens: Seq<PlacementView>) -> bool {
    &&& screens.len() > 0
    &&& forall|i: int| 0 <= i < screens.len() ==> has_area(#[trigger] screens[i])
    &&& all_placed_well(screens)
    &&& forall|i: int| 0 <= i < screens.len() ==> #[trigger] is_joined(screens, i)
}

/// `index` is where the first desktop of another node stands that shows the
/// pixel at `(x, y)`.
pub open spec fn is_first_showing(
    screens: Seq<PlacementView>,
    node: Seq<char>,
    x: int,
    y: int,
    index: int,
) -> bool {
    &&& 0 <= index < screens.len()
    &&& screens[index].node != node
    &&& screens[index].shows(x, y)
    &&& forall|i: int|
        0 <= i < index ==> (#[trigger] screens[i]).node == node || !screens[i].shows(x, y)
}

/// The desktop of another node that shows the pixel at `(x, y)`.
pub open spec fn neighbor_showing(
    screens: Seq<PlacementView>,
    node: Seq<char>,
    x: int,
    y: int,
) -> Option<PlacementView> {
    if exists|index: int| is_first_showing(screens, node, x, y, index) {
        Some(screens[choose|index: int| is_first_showing(screens, node, x, y, index)])
    } else {
        None
    }
}

/// The desktop entered from `node` through `edge` at `offset`, and the place in
/// its own coordinates where it is entered.
pub open spec fn crossing(
    screens: Seq<PlacementView>,
    node: Seq<char>,
    edge: Edge,
    offset: int,
) -> Option<(PlacementView, (int, int))> {
    match placement_of(screens, node) {
        None => None,
        Some(source) => if offset >= source.length_along(edge) || !source.layout.exposes(
            edge,
            offset,
        ) {
            None
        } else {
            let (x, y) = source.pixel_beyond(edge, offset);
            match neighbor_showing(screens, node, x, y) {
                None => None,
                Some(target) => if x - target.bounds.x0() > i32::MAX || y - target.bounds.y0()
                    > i32::MAX {
                    None
                } else {
                    Some((target, (x - target.bounds.x0(), y - target.bounds.y0())))
                },
            }
        },
    }
}

pub proof fn lemma_neighbor_showing(
    screens: Seq<PlacementView>,
    node: Seq<char>,
    x: int,
    y: int,
    index: int,
)
    requires
        is_first_showing(screens, node, x, y, index),
    ensures
        neighbor_showing(screens, node, x, y) == Some(screens[index]),
{
    let chosen = choose|i: int| is_first_showing(screens, node, x, y, i);
    assert(is_first_showing(screens, node, x, y, chosen));
    if chosen < index {
        assert(screens[chosen].node == node || !screens[chosen].shows(x, y));
    } else if index < chosen {
        assert(screens[index].node == node || !screens[index].shows(x, y));
    }
}

/// A connected arrangement of node desktops by pixel bounds.
#[derive(Debug, Eq)]
pub struct Topology {
    screens: Vec<ScreenPlacement>,
}

impl View for Topology {
    type V = Seq<PlacementView>;

    closed spec fn view(&self) -> Seq<PlacementView> {
        placement_views(self.screens@)
    }
}

impl Clone for Topology {
    fn clone(&self) -> (copy: Topology)
        ensures
            copy@ == self@,
    {
        proof {
            use_type_invariant(self);
        }
        let mut screens: Vec<ScreenPlacement> = Vec::new();
        let mut index: usize = 0;
        while index < self.screens.len()
            invariant
                index <= self.screens.len(),
                placement_views(screens@) == self@.take(index as int),
            decreases self.screens.len() - index,
        {
            let ghost before = screens@;
            screens.push(self.screens[index].clone());
            proof {
                assert(self@[index as int] == self.screens@[index as int]@);
                assert(placement_views(screens@) =~= placement_views(before).push(
                    self@[index as int],
                ));
                assert(self@.take(index as int).push(self@[index as int]) =~= self@.take(
                    index + 1,
                ));
            }
            index += 1;
        }
        assert(self@.take(index as int) =~= self@);
        Topology { screens }
    }
}

impl PartialEq for Topology {
    fn eq(&self, other: &Topology) -> (result: bool) {
        assert(self@.len() == self.screens@.len());
        assert(other@.len() == other.screens@.len());
        if self.screens.len() != other.screens.len() {
            return false;
        }
        let mut index: usize = 0;
        while index < self.screens.len()
            invariant
                index <= self.screens.len(),
                self.screens.len() == other.screens.len(),
                forall|i: int| 0 <= i < index ==> #[trigger] self@[i] == other@[i],
            decreases self.screens.len() - index,
        {
            assert(self@[index as int] == self.screens@[index as int]@);
            assert(other@[index as int] == other.screens@[index as int]@);
            if self.screens[index] != other.screens[index] {
                return false;
            }
            index += 1;
        }
        assert(self@ =~= other@);
        true
    }
}

impl vstd::std_specs::cmp::PartialEqSpecImpl for Topology {
    open spec fn obeys_eq_spec() -> bool {
        true
    }

    open spec fn eq_spec(&self, other: &Topology) -> bool {
        self@ == other@
    }
}

impl Topology {
    #[verifier::type_invariant]
    pub open spec fn is_valid(self) -> bool {
        is_arrangement(self@)
    }

    /// Arranges desktops that each have a node and a place of their own and
    /// that are all joined along touching edges.
    pub fn new(screens: Vec<ScreenPlacement>) -> (result: Result<Topology, TopologyError>)
        ensures
            result is Ok <==> is_arrangement(placement_views(screens@)),
            result matches Ok(topology) ==> topology@ == placement_views(screens@),
            result matches Err(error) ==> error.applies_to(placement_views(screens@)),
    {
        let ghost views = placement_views(screens@);
        if screens.is_empty() {
            return Err(TopologyError::Empty);
        }
        let mut index: usize = 0;
        while index < screens.len()
            invariant
                index <= screens.len(),
                views == placement_views(screens@),
                forall|i: int| 0 <= i < index ==> #[trigger] is_placed_well(views, i),
                forall|i: int| 0 <= i < index ==> has_area(#[trigger] views[i]),
            decreases screens.len() - index,
        {
            let screen = &screens[index];
            proof {
                use_type_invariant(&screen.bounds.size.width);
                use_type_invariant(&screen.bounds.size.height);
            }
            let mut same_node = false;
            let mut overlapped: Option<usize> = None;
            let mut earlier: usize = 0;
            while earlier < index
                invariant
                    earlier <= index < screens.len(),
                    views == placement_views(screens@),
                    screen == screens@[index as int],
                    same_node <==> exists|i: int|
                        0 <= i < earlier && (#[trigger] views[i]).node
                            == views[index as int].node,
                    match overlapped {
                        Some(first) => is_first_overlapped(views, first as int, index as int),
                        None => forall|i: int|
                            0 <= i < earlier ==> !bounds_overlap(
                                (#[trigger] views[i]).bounds,
                                views[index as int].bounds,
                            ),
                    },
                decreases index - earlier,
            {
                assert(views[earlier as int] == screens@[earlier as int]@);
                assert(views[index as int] == screens@[index as int]@);
                if screens[earlier].node == screen.node {
                    same_node = true;
                }
                if overlapped.is_none() && screens[earlier].bounds.overlaps(screen.bounds) {
                    overlapped = Some(earlier);
                }
                earlier += 1;
            }
            assert(views[index as int] == screen@);
            assert(same_node == repeats_node(views, index as int));
            proof {
                if overlapped is Some {
                    let first = overlapped->Some_0 as int;
                    assert(bounds_overlap(views[first].bounds, views[index as int].bounds));
                }
                if same_node || overlapped is Some {
                    assert(!is_placed_well(views, index as int));
                    assert(is_first_misplaced(views, index as int));
                }
            }
            if same_node {
                return Err(TopologyError::DuplicateNode(screen.node.clone()));
            }
            if let Some(first) = overlapped {
                assert(views[first as int] == screens@[first as int]@);
                return Err(
                    TopologyError::OverlappingScreens {
                        first: screens[first].node.clone(),
                        second: screen.node.clone(),
                    },
                );
            }
            index += 1;
        }
        let connected = connected_screen_indexes(&screens);
        let mut member: usize = 0;
        while member < screens.len()
            invariant
                member <= screens.len(),
                views == placement_views(screens@),
                connected@.len() == screens@.len(),
                all_placed_well(views),
                forall|i: int| 0 <= i < views.len() ==> has_area(#[trigger] views[i]),
                forall|i: int|
                    0 <= i < screens@.len() ==> #[trigger] connected@[i] == is_joined(views, i),
                forall|i: int| 0 <= i < member ==> #[trigger] is_joined(views, i),
            decreases screens.len() - member,
        {
            if !connected[member] {
                assert(views[member as int] == screens@[member as int]@);
                return Err(TopologyError::DisconnectedNode(screens[member].node.clone()));
            }
            assert(is_joined(views, member as int));
            member += 1;
        }
        Ok(Topology { screens })
    }

    pub fn screens(&self) -> (screens: &[ScreenPlacement])
        ensures
            placement_views(screens@) == self@,
            is_arrangement(self@),
    {
        proof {
            use_type_invariant(self);
        }
        self.screens.as_slice()
    }

    /// The desktop of `node`.
    pub fn screen(&self, node: &NodeId) -> (screen: Option<&ScreenPlacement>)
        ensures
            match screen {
                Some(screen) => placement_of(self@, node@) == Some(screen@),
                None => placement_of(self@, node@) is None,
            },
    {
        let mut index: usize = 0;
        while index < self.screens.len()
            invariant
                index <= self.screens.len(),
                forall|i: int| 0 <= i < index ==> (#[trigger] self@[i]).node != node@,
            decreases self.screens.len() - index,
        {
            assert(self@[index as int] == self.screens@[index as int]@);
            if self.screens[index].node == *node {
                proof {
                    lemma_placement_of(self@, node@, index as int);
                }
                return Some(&self.screens[index]);
            }
            index += 1;
        }
        None
    }

    /// Finds the desktop entered through `edge` at an offset on the current edge.
    pub fn transition(&self, current: &NodeId, edge: Edge, offset: u32) -> (result: Option<
        Transition<'_>,
    >)
        ensures
            match result {
                Some(transition) => crossing(self@, current@, edge, offset as int) matches Some(
                    (target, (x, y)),
                ) && transition.target@ == target.node && transition.local_position.x == x
                    && transition.local_position.y == y,
                None => crossing(self@, current@, edge, offset as int) is None,
            },
    {
        let source = match self.screen(current) {
            Some(screen) => screen,
            None => {
                return None;
            },
        };
        let length: u32 = match edge {
            Edge::Left | Edge::Right => source.bounds.size.height.get(),
            Edge::Top | Edge::Bottom => source.bounds.size.width.get(),
        };
        if offset >= length || !source.layout.contains_edge_offset(edge, offset) {
            return None;
        }
        let bounds = source.bounds;
        let (x, y): (i64, i64) = match edge {
            Edge::Left => (bounds.left() - 1, bounds.top() + offset as i64),
            Edge::Right => (bounds.right(), bounds.top() + offset as i64),
            Edge::Top => (bounds.left() + offset as i64, bounds.top() - 1),
            Edge::Bottom => (bounds.left() + offset as i64, bounds.bottom()),
        };
        let mut index: usize = 0;
        while index < self.screens.len()
            invariant
                index <= self.screens.len(),
                forall|i: int|
                    0 <= i < index ==> (#[trigger] self@[i]).node == current@ || !self@[i].shows(
                        x as int,
                        y as int,
                    ),
                placement_of(self@, current@) == Some(source@),
                offset < source@.length_along(edge),
                source@.layout.exposes(edge, offset as int),
                source@.pixel_beyond(edge, offset as int) == (x as int, y as int),
                -0x1_0000_0000 <= x <= 0x2_0000_0000,
                -0x1_0000_0000 <= y <= 0x2_0000_0000,
            decreases self.screens.len() - index,
        {
            let screen = &self.screens[index];
            assert(self@[index as int] == screen@);
            if screen.node != *current && screen.bounds.contains_coordinates(x, y) {
                let local_x: i64 = x - screen.bounds.left();
                let local_y: i64 = y - screen.bounds.top();
                if screen.layout.contains_coordinates(local_x, local_y) {
                    proof {
                        lemma_neighbor_showing(self@, current@, x as int, y as int, index as int);
                    }
                    if local_x > i32::MAX as i64 || local_y > i32::MAX as i64 {
                        return None;
                    }
                    let local_position = Point { x: local_x as i32, y: local_y as i32 };
                    return Some(Transition { target: &screen.node, local_position });
                }
            }
            index += 1;
        }
        None
    }
}

fn connected_screen_indexes(screens: &Vec<ScreenPlacement>) -> (connected: Vec<bool>)
    ensures
        connected@.len() == screens@.len(),
        forall|i: int|
            0 <= i < screens@.len() ==> #[trigger] connected@[i] == is_joined(
                placement_views(screens@),
                i,
            ),
{
    let ghost views = placement_views(screens@);
    let mut links: Vec<Vec<bool>> = Vec::new();
    let mut i: usize = 0;
    while i < screens.len()
        invariant
            i <= screens.len(),
            views == placement_views(screens@),
            links@.len() == i,
            forall|a: int| 0 <= a < i ==> (#[trigger] links@[a])@.len() == screens@.len(),
            forall|a: int, b: int|
                0 <= a < i && 0 <= b < screens@.len() ==> #[trigger] links@[a]@[b]
                    == views[a].bounds.touches(views[b].bounds),
        decreases screens.len() - i,
    {
        let mut row: Vec<bool> = Vec::new();
        let mut j: usize = 0;
        while j < screens.len()
            invariant
                i < screens.len(),
                j <= screens.len(),
                views == placement_views(screens@),
                row@.len() == j,
                forall|b: int|
                    0 <= b < j ==> #[trigger] row@[b] == views[i as int].bounds.touches(
                        views[b].bounds,
                    ),
            decreases screens.len() - j,
        {
            assert(views[i as int] == screens@[i as int]@);
            assert(views[j as int] == screens@[j as int]@);
            row.push(screens[i].bounds.shares_edge(screens[j].bounds));
            j += 1;
        }
        links.push(row);
        i += 1;
    }
    let connected = reachable_members(&links);
    proof {
        let count = screens@.len() as int;
        let table = crate::domain::reachability::table_relation(links@);
        let adjacency = edge_adjacency(views);
        assert forall|a: int, b: int| 0 <= a < count && 0 <= b < count implies #[trigger] table(
            a,
            b,
        ) == adjacency(a, b) by {
            assert(links@[a]@[b] == views[a].bounds.touches(views[b].bounds));
        }
        assert forall|i: int| 0 <= i < count implies #[trigger] connected@[i] == is_joined(
            views,
            i,
        ) by {
            crate::domain::reachability::lemma_same_links_same_reach(count, table, adjacency, i);
        }
    }
    connected
}

/// Why desktops cannot be arranged as asked.
#[derive(Debug, PartialEq, Eq)]
pub enum TopologyError {
    Empty,
    DuplicateNode(NodeId),
    OverlappingScreens { first: NodeId, second: NodeId },
    DisconnectedNode(NodeId),
}

pub ghost enum TopologyFault {
    Empty,
    DuplicateNode(Seq<char>),
    OverlappingScreens { first: Seq<char>, second: Seq<char> },
    DisconnectedNode(Seq<char>),
}

impl View for TopologyError {
    type V = TopologyFault;

    open spec fn view(&self) -> TopologyFault {
        match self {
            TopologyError::Empty => TopologyFault::Empty,
            TopologyError::DuplicateNode(node) => TopologyFault::DuplicateNode(node@),
            TopologyError::OverlappingScreens { first, second } => {
                TopologyFault::OverlappingScreens { first: first@, second: second@ }
            },
            TopologyError::DisconnectedNode(node) => TopologyFault::DisconnectedNode(node@),
        }
    }
}

impl TopologyError {
    /// The error in words.
    pub open spec fn text(self) -> Seq<char> {
        match self {
            TopologyError::Empty => "topology must contain at least one screen"@,
            TopologyError::DuplicateNode(node) => "node `"@ + node@
                + "` appears more than once in the topology"@,
            TopologyError::OverlappingScreens { first, second } => "screens for `"@ + first@
                + "` and `"@ + second@ + "` overlap"@,
            TopologyError::DisconnectedNode(node) => "screen for `"@ + node@
                + "` is not adjacent to the connected topology"@,
        }
    }

    /// The error in words.
    pub fn message(&self) -> (message: String)
        ensures
            message@ == self.text(),
    {
        let mut message = String::new();
        match self {
            TopologyError::Empty => message.append("topology must contain at least one screen"),
            TopologyError::DuplicateNode(node) => {
                message.append("node `");
                message.append(node.as_str());
                message.append("` appears more than once in the topology");
            },
            TopologyError::OverlappingScreens { first, second } => {
                message.append("screens for `");
                message.append(first.as_str());
                message.append("` and `");
                message.append(second.as_str());
                message.append("` overlap");
            },
            TopologyError::DisconnectedNode(node) => {
                message.append("screen for `");
                message.append(node.as_str());
                message.append("` is not adjacent to the connected topology");
            },
        }
        assert(message@ =~= self.text());
        message
    }

    /// This is the error that the arrangement is refused with.
    pub open spec fn applies_to(self, screens: Seq<PlacementView>) -> bool {
        match self {
            TopologyError::Empty => screens.len() == 0,
            TopologyError::DuplicateNode(node) => exists|i: int| #[trigger]
                is_first_misplaced(screens, i) && repeats_node(screens, i) && screens[i].node
                    == node@,
            TopologyError::OverlappingScreens { first, second } => exists|i: int, j: int| #[trigger]
                is_first_misplaced(screens, i) && !repeats_node(screens, i)
                    && #[trigger] is_first_overlapped(screens, j, i) && screens[j].node == first@
                    && screens[i].node == second@,
            TopologyError::DisconnectedNode(node) => {
                &&& screens.len() > 0
                &&& all_placed_well(screens)
                &&& exists|i: int| 0 <= i < screens.len() && !#[trigger] is_joined(screens, i)
                    && screens[i].node == node@ && forall|j: int|
                    0 <= j < i ==> #[trigger] is_joined(screens, j)
            },
        }
    }
}

/// A crossing leads to the desktop of another node, at a pixel of it that
/// touches the pixel it was made from.
pub proof fn law_crossing_enters_a_touching_pixel(
    screens: Seq<PlacementView>,
    node: Seq<char>,
    edge: Edge,
    offset: int,
)
    ensures
        crossing(screens, node, edge, offset) matches Some((target, (x, y))) ==> {
            &&& target.node != node
            &&& 0 <= x < target.bounds.size.width@
            &&& 0 <= y < target.bounds.size.height@
            &&& target.layout.shows(x, y)
            &&& placement_of(screens, node) matches Some(source)
            &&& source.pixel_beyond(edge, offset) == (target.bounds.x0() + x, target.bounds.y0()
                + y)
        },
{
    if let Some((target, (x, y))) = crossing(screens, node, edge, offset) {
        let source = placement_of(screens, node)->Some_0;
        let (gx, gy) = source.pixel_beyond(edge, offset);
        let index = choose|index: int| is_first_showing(screens, node, gx, gy, index);
        assert(is_first_showing(screens, node, gx, gy, index));
    }
}

} // verus!
