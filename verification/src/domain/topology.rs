//! The fixed grid that node desktops are arranged on.

use vstd::prelude::*;
use vstd::string::*;

use crate::domain::geometry::{Point, Size};
use crate::domain::identity::NodeId;
use crate::domain::reachability::reachable_members;
use crate::text::push_decimal;

verus! {

pub const TOPOLOGY_COLUMNS: u8 = 5;

pub const TOPOLOGY_ROWS: u8 = 5;

/// A side of a desktop.
#[derive(Clone, Copy, Debug, PartialEq, Eq, Structural, Hash)]
pub enum Edge {
    Left,
    Right,
    Top,
    Bottom,
}

impl Edge {
    /// The side that faces this one.
    pub open spec fn facing(self) -> Edge {
        match self {
            Edge::Left => Edge::Right,
            Edge::Right => Edge::Left,
            Edge::Top => Edge::Bottom,
            Edge::Bottom => Edge::Top,
        }
    }

    /// The side that faces this one.
    pub fn opposite(self) -> (edge: Edge)
        ensures
            edge == self.facing(),
    {
        match self {
            Edge::Left => Edge::Right,
            Edge::Right => Edge::Left,
            Edge::Top => Edge::Bottom,
            Edge::Bottom => Edge::Top,
        }
    }
}

#[derive(Clone, Copy, Debug, PartialEq, Eq, Structural, Hash)]
pub struct GridSlot {
    pub column: u8,
    pub row: u8,
}

impl GridSlot {
    /// The slot lies on the grid.
    pub open spec fn is_on_grid(self) -> bool {
        self.column < TOPOLOGY_COLUMNS && self.row < TOPOLOGY_ROWS
    }

    /// The slots lie next to each other in a row or a column.
    pub open spec fn is_adjacent(self, other: GridSlot) -> bool {
        ||| self.column == other.column && (self.row == other.row + 1 || other.row == self.row + 1)
        ||| self.row == other.row && (self.column == other.column + 1 || other.column == self.column
            + 1)
    }

    /// The slot beyond `edge`, where the grid has one.
    pub open spec fn beyond(self, edge: Edge) -> Option<GridSlot> {
        match edge {
            Edge::Left => if self.column > 0 {
                Some(GridSlot { column: (self.column - 1) as u8, row: self.row })
            } else {
                None
            },
            Edge::Right => if self.column + 1 < TOPOLOGY_COLUMNS {
                Some(GridSlot { column: (self.column + 1) as u8, row: self.row })
            } else {
                None
            },
            Edge::Top => if self.row > 0 {
                Some(GridSlot { column: self.column, row: (self.row - 1) as u8 })
            } else {
                None
            },
            Edge::Bottom => if self.row + 1 < TOPOLOGY_ROWS {
                Some(GridSlot { column: self.column, row: (self.row + 1) as u8 })
            } else {
                None
            },
        }
    }

    pub fn new(column: u8, row: u8) -> (slot: GridSlot)
        ensures
            slot == (GridSlot { column, row }),
    {
        GridSlot { column, row }
    }

    /// The slot beyond `edge`, where the grid has one.
    pub fn neighbor(self, edge: Edge) -> (slot: Option<GridSlot>)
        requires
            edge is Right ==> self.column < u8::MAX,
            edge is Bottom ==> self.row < u8::MAX,
        ensures
            slot == self.beyond(edge),
    {
        match edge {
            Edge::Left => if self.column > 0 {
                Some(GridSlot::new(self.column - 1, self.row))
            } else {
                None
            },
            Edge::Right => if self.column + 1 < TOPOLOGY_COLUMNS {
                Some(GridSlot::new(self.column + 1, self.row))
            } else {
                None
            },
            Edge::Top => if self.row > 0 {
                Some(GridSlot::new(self.column, self.row - 1))
            } else {
                None
            },
            Edge::Bottom => if self.row + 1 < TOPOLOGY_ROWS {
                Some(GridSlot::new(self.column, self.row + 1))
            } else {
                None
            },
        }
    }
}

/// One node's desktop in its grid slot.
#[derive(Debug, PartialEq, Eq)]
pub struct ScreenPlacement {
    pub node: NodeId,
    pub slot: GridSlot,
    pub size: Size,
}

impl Clone for ScreenPlacement {
    fn clone(&self) -> (copy: ScreenPlacement)
        ensures
            copy == *self,
    {
        ScreenPlacement { node: self.node.clone(), slot: self.slot, size: self.size }
    }
}

pub ghost struct PlacementView {
    pub node: Seq<char>,
    pub slot: GridSlot,
    pub size: Size,
}

impl View for ScreenPlacement {
    type V = PlacementView;

    open spec fn view(&self) -> PlacementView {
        PlacementView { node: self.node@, slot: self.slot, size: self.size }
    }
}

/// Where an edge crossing leads.
#[derive(Clone, Copy, Debug, PartialEq, Eq)]
pub struct Transition<'a> {
    pub target: &'a NodeId,
    pub local_position: Point,
}

/// The views of a list of placements.
pub open spec fn placement_views(screens: Seq<ScreenPlacement>) -> Seq<PlacementView> {
    screens.map_values(|screen: ScreenPlacement| screen@)
}

/// `index` is where the first desktop of `node` stands.
pub open spec fn is_first_of_node(
    screens: Seq<PlacementView>,
    node: Seq<char>,
    index: int,
) -> bool {
    &&& 0 <= index < screens.len()
    &&& screens[index].node == node
    &&& forall|i: int| 0 <= i < index ==> (#[trigger] screens[i]).node != node
}

/// The desktop of `node`.
pub open spec fn placement_of(screens: Seq<PlacementView>, node: Seq<char>) -> Option<
    PlacementView,
> {
    if exists|index: int| is_first_of_node(screens, node, index) {
        Some(screens[choose|index: int| is_first_of_node(screens, node, index)])
    } else {
        None
    }
}

/// `index` is where the first desktop in `slot` stands.
pub open spec fn is_first_in_slot(screens: Seq<PlacementView>, slot: GridSlot, index: int) -> bool {
    &&& 0 <= index < screens.len()
    &&& screens[index].slot == slot
    &&& forall|i: int| 0 <= i < index ==> (#[trigger] screens[i]).slot != slot
}

/// The desktop in `slot`.
pub open spec fn placement_in(screens: Seq<PlacementView>, slot: GridSlot) -> Option<
    PlacementView,
> {
    if exists|index: int| is_first_in_slot(screens, slot, index) {
        Some(screens[choose|index: int| is_first_in_slot(screens, slot, index)])
    } else {
        None
    }
}

/// An earlier desktop belongs to the same node.
pub open spec fn repeats_node(screens: Seq<PlacementView>, index: int) -> bool {
    exists|i: int| 0 <= i < index && (#[trigger] screens[i]).node == screens[index].node
}

/// An earlier desktop has the same slot.
pub open spec fn repeats_slot(screens: Seq<PlacementView>, index: int) -> bool {
    exists|i: int| 0 <= i < index && (#[trigger] screens[i]).slot == screens[index].slot
}

/// The desktop at `index` has a node and a slot of its own on the grid.
pub open spec fn is_placed_well(screens: Seq<PlacementView>, index: int) -> bool {
    &&& !repeats_node(screens, index)
    &&& screens[index].slot.is_on_grid()
    &&& !repeats_slot(screens, index)
}

/// Every desktop has a node and a slot of its own on the grid.
pub open spec fn all_placed_well(screens: Seq<PlacementView>) -> bool {
    forall|i: int| 0 <= i < screens.len() ==> #[trigger] is_placed_well(screens, i)
}

/// `index` is where the first badly placed desktop stands.
pub open spec fn is_first_misplaced(screens: Seq<PlacementView>, index: int) -> bool {
    &&& 0 <= index < screens.len()
    &&& !is_placed_well(screens, index)
    &&& forall|i: int| 0 <= i < index ==> #[trigger] is_placed_well(screens, i)
}

/// Adjacency of the desktops at two indexes.
pub open spec fn slot_adjacency(screens: Seq<PlacementView>) -> spec_fn(int, int) -> bool {
    |i: int, j: int| screens[i].slot.is_adjacent(screens[j].slot)
}

/// A chain of adjacent desktops leads from the first to the one at `index`.
pub open spec fn is_joined(screens: Seq<PlacementView>, index: int) -> bool {
    crate::domain::reachability::is_reachable(
        screens.len() as int,
        slot_adjacency(screens),
        index,
    )
}

/// One or more well placed desktops, all joined to the first.
pub open spec fn is_grid_topology(screens: Seq<PlacementView>) -> bool {
    &&& screens.len() > 0
    &&& all_placed_well(screens)
    &&& forall|i: int| 0 <= i < screens.len() ==> #[trigger] is_joined(screens, i)
}

/// The number of pixels along an edge.
pub open spec fn length_along(size: Size, edge: Edge) -> int {
    match edge {
        Edge::Left | Edge::Right => size.height@ as int,
        Edge::Top | Edge::Bottom => size.width@ as int,
    }
}

/// The position on an edge of `target_length` pixels that stands in the same
/// proportion as `offset` on one of `source_length`, to the nearest pixel.
pub open spec fn proportional_offset(offset: int, source_length: int, target_length: int) -> int {
    if source_length <= 1 {
        0
    } else {
        let rounded = (offset * (target_length - 1) + (source_length - 1) / 2) / (source_length
            - 1);
        if rounded < target_length - 1 {
            rounded
        } else {
            target_length - 1
        }
    }
}

/// Where a pointer enters a desktop that it reaches through `edge` of its
/// neighbour, at `mapped` along the shared side.
pub open spec fn entry_point(size: Size, edge: Edge, mapped: int) -> (int, int) {
    match edge {
        Edge::Left => (size.width@ - 1, mapped),
        Edge::Right => (0, mapped),
        Edge::Top => (mapped, size.height@ - 1),
        Edge::Bottom => (mapped, 0),
    }
}

/// The desktop entered from `node` through `edge` at `offset`, and the place
/// where it is entered.
pub open spec fn crossing(
    screens: Seq<PlacementView>,
    node: Seq<char>,
    edge: Edge,
    offset: int,
) -> Option<(PlacementView, (int, int))> {
    match placement_of(screens, node) {
        None => None,
        Some(source) => if offset >= length_along(source.size, edge) {
            None
        } else {
            match source.slot.beyond(edge) {
                None => None,
                Some(slot) => match placement_in(screens, slot) {
                    None => None,
                    Some(target) => if target.size.width@ - 1 > i32::MAX || target.size.height@ - 1
                        > i32::MAX {
                        None
                    } else {
                        let mapped = proportional_offset(
                            offset,
                            length_along(source.size, edge),
                            length_along(target.size, edge),
                        );
                        Some((target, entry_point(target.size, edge, mapped)))
                    },
                },
            }
        },
    }
}

pub proof fn lemma_placement_of(screens: Seq<PlacementView>, node: Seq<char>, index: int)
    requires
        is_first_of_node(screens, node, index),
    ensures
        placement_of(screens, node) == Some(screens[index]),
{
    let chosen = choose|i: int| is_first_of_node(screens, node, i);
    assert(is_first_of_node(screens, node, chosen));
    if chosen < index {
        assert(screens[chosen].node != node);
    } else if index < chosen {
        assert(screens[index].node != node);
    }
}

pub proof fn lemma_placement_in(screens: Seq<PlacementView>, slot: GridSlot, index: int)
    requires
        is_first_in_slot(screens, slot, index),
    ensures
        placement_in(screens, slot) == Some(screens[index]),
{
    let chosen = choose|i: int| is_first_in_slot(screens, slot, i);
    assert(is_first_in_slot(screens, slot, chosen));
    if chosen < index {
        assert(screens[chosen].slot != slot);
    } else if index < chosen {
        assert(screens[index].slot != slot);
    }
}

/// A connected arrangement of node desktops on the fixed topology grid.
#[derive(Debug, PartialEq, Eq)]
pub struct Topology {
    screens: Vec<ScreenPlacement>,
}

impl Clone for Topology {
    fn clone(&self) -> (copy: Topology)
        ensures
            copy@ == self@,
    {
        proof {
            use_type_invariant(self);
        }
        let mut screens: Vec<ScreenPlacement> = Vec::new();
        let mut index: usize = 0;
        while index < self.screens.len()
            invariant
                index <= self.screens.len(),
                screens@ == self.screens@.take(index as int),
            decreases self.screens.len() - index,
        {
            screens.push(self.screens[index].clone());
            index += 1;
        }
        assert(screens@ =~= self.screens@);
        Topology { screens }
    }
}

impl View for Topology {
    type V = Seq<PlacementView>;

    closed spec fn view(&self) -> Seq<PlacementView> {
        placement_views(self.screens@)
    }
}

impl Topology {
    #[verifier::type_invariant]
    pub open spec fn is_valid(self) -> bool {
        is_grid_topology(self@)
    }

    /// Arranges desktops that each have a node and a slot of their own and
    /// that are all joined through neighbouring slots.
    pub fn new(screens: Vec<ScreenPlacement>) -> (result: Result<Topology, TopologyError>)
        ensures
            result is Ok <==> is_grid_topology(placement_views(screens@)),
            result matches Ok(topology) ==> topology@ == placement_views(screens@),
            result matches Err(error) ==> error.applies_to(placement_views(screens@)),
    {
        let ghost views = placement_views(screens@);
        if screens.is_empty() {
            return Err(TopologyError::Empty);
        }
        let mut index: usize = 0;
        while index < screens.len()
            invariant
                index <= screens.len(),
                views == placement_views(screens@),
                forall|i: int| 0 <= i < index ==> #[trigger] is_placed_well(views, i),
            decreases screens.len() - index,
        {
            let screen = &screens[index];
            let mut same_node = false;
            let mut same_slot = false;
            let mut earlier: usize = 0;
            while earlier < index
                invariant
                    earlier <= index < screens.len(),
                    views == placement_views(screens@),
                    screen == screens@[index as int],
                    same_node <==> exists|i: int|
                        0 <= i < earlier && (#[trigger] views[i]).node
                            == views[index as int].node,
                    same_slot <==> exists|i: int|
                        0 <= i < earlier && (#[trigger] views[i]).slot
                            == views[index as int].slot,
                decreases index - earlier,
            {
                assert(views[earlier as int] == screens@[earlier as int]@);
                if screens[earlier].node == screen.node {
                    same_node = true;
                }
                if screens[earlier].slot == screen.slot {
                    same_slot = true;
                }
                earlier += 1;
            }
            assert(views[index as int] == screen@);
            assert(same_node == repeats_node(views, index as int));
            assert(same_slot == repeats_slot(views, index as int));
            proof {
                if same_node || same_slot || !screen.slot.is_on_grid() {
                    assert(!is_placed_well(views, index as int));
                    assert(is_first_misplaced(views, index as int));
                }
            }
            if same_node {
                return Err(TopologyError::DuplicateNode(screen.node.clone()));
            }
            if screen.slot.column >= TOPOLOGY_COLUMNS || screen.slot.row >= TOPOLOGY_ROWS {
                return Err(
                    TopologyError::SlotOutOfBounds { node: screen.node.clone(), slot: screen.slot },
                );
            }
            if same_slot {
                return Err(TopologyError::OccupiedSlot(screen.slot));
            }
            index += 1;
        }
        let connected = connected_screen_indexes(&screens);
        let mut member: usize = 0;
        while member < screens.len()
            invariant
                member <= screens.len(),
                views == placement_views(screens@),
                connected@.len() == screens@.len(),
                all_placed_well(views),
                forall|i: int|
                    0 <= i < screens@.len() ==> #[trigger] connected@[i] == is_joined(views, i),
                forall|i: int| 0 <= i < member ==> #[trigger] is_joined(views, i),
            decreases screens.len() - member,
        {
            if !connected[member] {
                assert(views[member as int] == screens@[member as int]@);
                return Err(TopologyError::DisconnectedNode(screens[member].node.clone()));
            }
            assert(is_joined(views, member as int));
            member += 1;
        }
        Ok(Topology { screens })
    }

    pub fn screens(&self) -> (screens: &[ScreenPlacement])
        ensures
            placement_views(screens@) == self@,
            is_grid_topology(self@),
    {
        proof {
            use_type_invariant(self);
        }
        self.screens.as_slice()
    }

    /// The desktop of `node`.
    pub fn screen(&self, node: &NodeId) -> (screen: Option<&ScreenPlacement>)
        ensures
            match screen {
                Some(screen) => placement_of(self@, node@) == Some(screen@),
                None => placement_of(self@, node@) is None,
            },
    {
        let mut index: usize = 0;
        while index < self.screens.len()
            invariant
                index <= self.screens.len(),
                forall|i: int| 0 <= i < index ==> (#[trigger] self@[i]).node != node@,
            decreases self.screens.len() - index,
        {
            assert(self@[index as int] == self.screens@[index as int]@);
            if self.screens[index].node == *node {
                proof {
                    lemma_placement_of(self@, node@, index as int);
                }
                return Some(&self.screens[index]);
            }
            index += 1;
        }
        None
    }

    /// The desktop in `slot`.
    pub fn screen_in_slot(&self, slot: GridSlot) -> (screen: Option<&ScreenPlacement>)
        ensures
            match screen {
                Some(screen) => placement_in(self@, slot) == Some(screen@),
                None => placement_in(self@, slot) is None,
            },
    {
        let mut index: usize = 0;
        while index < self.screens.len()
            invariant
                index <= self.screens.len(),
                forall|i: int| 0 <= i < index ==> (#[trigger] self@[i]).slot != slot,
            decreases self.screens.len() - index,
        {
            assert(self@[index as int] == self.screens@[index as int]@);
            if self.screens[index].slot == slot {
                proof {
                    lemma_placement_in(self@, slot, index as int);
                }
                return Some(&self.screens[index]);
            }
            index += 1;
        }
        None
    }

    /// Finds the desktop entered through `edge` at an offset on the current edge.
    pub fn transition(&self, current: &NodeId, edge: Edge, offset: u32) -> (result: Option<
        Transition<'_>,
    >)
        ensures
            match result {
                Some(transition) => crossing(self@, current@, edge, offset as int) matches Some(
                    (target, (x, y)),
                ) && transition.target@ == target.node && transition.local_position.x == x
                    && transition.local_position.y == y,
                None => crossing(self@, current@, edge, offset as int) is None,
            },
    {
        proof {
            use_type_invariant(self);
        }
        let source = match self.screen(current) {
            Some(screen) => screen,
            None => {
                return None;
            },
        };
        let source_length: u32 = edge_length(source.size, edge);
        if offset >= source_length {
            return None;
        }
        proof {
            let at = choose|i: int| is_first_of_node(self@, current@, i);
            assert(is_placed_well(self@, at));
        }
        let target_slot = match source.slot.neighbor(edge) {
            Some(slot) => slot,
            None => {
                return None;
            },
        };
        let target = match self.screen_in_slot(target_slot) {
            Some(screen) => screen,
            None => {
                return None;
            },
        };
        let target_length: u32 = edge_length(target.size, edge);
        let mapped: u32 = map_edge_offset(offset, source_length, target_length);
        let maximum_x: u32 = target.size.width.get() - 1;
        let maximum_y: u32 = target.size.height.get() - 1;
        if maximum_x > i32::MAX as u32 || maximum_y > i32::MAX as u32 {
            return None;
        }
        let local_position = match edge {
            Edge::Left => Point { x: maximum_x as i32, y: mapped as i32 },
            Edge::Right => Point { x: 0, y: mapped as i32 },
            Edge::Top => Point { x: mapped as i32, y: maximum_y as i32 },
            Edge::Bottom => Point { x: mapped as i32, y: 0 },
        };
        Some(Transition { target: &target.node, local_position })
    }
}

fn edge_length(size: Size, edge: Edge) -> (length: u32)
    ensures
        length == length_along(size, edge),
        length > 0,
{
    match edge {
        Edge::Left | Edge::Right => size.height.get(),
        Edge::Top | Edge::Bottom => size.width.get(),
    }
}

fn map_edge_offset(offset: u32, source_length: u32, target_length: u32) -> (mapped: u32)
    requires
        source_length > 0,
        target_length > 0,
    ensures
        mapped == proportional_offset(offset as int, source_length as int, target_length as int),
        mapped < target_length,
{
    let source_span: u32 = source_length - 1;
    let target_span: u32 = target_length - 1;
    if source_span == 0 {
        return 0;
    }
    assert(0 <= offset * target_span <= 0xffff_ffff * 0xffff_ffff) by (nonlinear_arith)
        requires
            0 <= offset <= 0xffff_ffff,
            0 <= target_span <= 0xffff_ffff,
    ;
    let numerator: u64 = offset as u64 * target_span as u64 + (source_span / 2) as u64;
    let rounded: u64 = numerator / source_span as u64;
    proof {
        assert(rounded >= 0);
    }
    if rounded < target_span as u64 {
        rounded as u32
    } else {
        target_span
    }
}

fn connected_screen_indexes(screens: &Vec<ScreenPlacement>) -> (connected: Vec<bool>)
    ensures
        connected@.len() == screens@.len(),
        forall|i: int|
            0 <= i < screens@.len() ==> #[trigger] connected@[i] == is_joined(
                placement_views(screens@),
                i,
            ),
{
    let ghost views = placement_views(screens@);
    let mut links: Vec<Vec<bool>> = Vec::new();
    let mut i: usize = 0;
    while i < screens.len()
        invariant
            i <= screens.len(),
            views == placement_views(screens@),
            links@.len() == i,
            forall|a: int| 0 <= a < i ==> (#[trigger] links@[a])@.len() == screens@.len(),
            forall|a: int, b: int|
                0 <= a < i && 0 <= b < screens@.len() ==> #[trigger] links@[a]@[b]
                    == views[a].slot.is_adjacent(views[b].slot),
        decreases screens.len() - i,
    {
        let mut row: Vec<bool> = Vec::new();
        let mut j: usize = 0;
        while j < screens.len()
            invariant
                i < screens.len(),
                j <= screens.len(),
                views == placement_views(screens@),
                row@.len() == j,
                forall|b: int|
                    0 <= b < j ==> #[trigger] row@[b] == views[i as int].slot.is_adjacent(
                        views[b].slot,
                    ),
            decreases screens.len() - j,
        {
            assert(views[i as int] == screens@[i as int]@);
            assert(views[j as int] == screens@[j as int]@);
            row.push(slots_are_adjacent(screens[i].slot, screens[j].slot));
            j += 1;
        }
        links.push(row);
        i += 1;
    }
    let connected = reachable_members(&links);
    proof {
        let count = screens@.len() as int;
        let table = crate::domain::reachability::table_relation(links@);
        let adjacency = slot_adjacency(views);
        assert forall|a: int, b: int| 0 <= a < count && 0 <= b < count implies #[trigger] table(
            a,
            b,
        ) == adjacency(a, b) by {
            assert(links@[a]@[b] == views[a].slot.is_adjacent(views[b].slot));
        }
        assert forall|i: int| 0 <= i < count implies #[trigger] connected@[i] == is_joined(
            views,
            i,
        ) by {
            crate::domain::reachability::lemma_same_links_same_reach(count, table, adjacency, i);
        }
    }
    connected
}

fn slots_are_adjacent(first: GridSlot, second: GridSlot) -> (result: bool)
    ensures
        result == first.is_adjacent(second),
{
    (first.column == second.column && distance(first.row, second.row) == 1) || (first.row
        == second.row && distance(first.column, second.column) == 1)
}

fn distance(a: u8, b: u8) -> (result: u8)
    ensures
        result == if a >= b {
            a - b
        } else {
            b - a
        },
{
    if a >= b {
        a - b
    } else {
        b - a
    }
}

/// Why desktops cannot be arranged as asked.
#[derive(Debug, PartialEq, Eq)]
pub enum TopologyError {
    Empty,
    DuplicateNode(NodeId),
    SlotOutOfBounds { node: NodeId, slot: GridSlot },
    OccupiedSlot(GridSlot),
    DisconnectedNode(NodeId),
}

impl TopologyError {
    /// This is the error that the arrangement is refused with.
    pub open spec fn applies_to(self, screens: Seq<PlacementView>) -> bool {
        match self {
            TopologyError::Empty => screens.len() == 0,
            TopologyError::DuplicateNode(node) => exists|i: int| #[trigger]
                is_first_misplaced(screens, i) && repeats_node(screens, i) && screens[i].node
                    == node@,
            TopologyError::SlotOutOfBounds { node, slot } => exists|i: int| #[trigger]
                is_first_misplaced(screens, i) && !repeats_node(screens, i)
                    && !screens[i].slot.is_on_grid() && screens[i].node == node@ && screens[i].slot
                    == slot,
            TopologyError::OccupiedSlot(slot) => exists|i: int| #[trigger]
                is_first_misplaced(screens, i) && !repeats_node(screens, i)
                    && screens[i].slot.is_on_grid() && screens[i].slot == slot,
            TopologyError::DisconnectedNode(node) => {
                &&& screens.len() > 0
                &&& all_placed_well(screens)
                &&& exists|i: int| 0 <= i < screens.len() && !#[trigger] is_joined(screens, i)
                    && screens[i].node == node@ && forall|j: int|
                    0 <= j < i ==> #[trigger] is_joined(screens, j)
            },
        }
    }
}

/// The slot beyond an edge has the slot that was left beyond its facing edge.
pub proof fn law_neighbors_are_mutual(slot: GridSlot, edge: Edge)
    requires
        slot.is_on_grid(),
    ensures
        slot.beyond(edge) matches Some(next) ==> next.is_on_grid() && next.beyond(edge.facing())
            == Some(slot) && slot.is_adjacent(next),
{
}

/// The ends of an edge are carried to the ends of the edge across.
pub proof fn law_edge_mapping_keeps_the_ends(source_length: int, target_length: int)
    requires
        source_length > 1,
        target_length > 0,
    ensures
        proportional_offset(0, source_length, target_length) == 0,
        proportional_offset(source_length - 1, source_length, target_length) == target_length - 1,
{
    let span = source_length - 1;
    let target_span = target_length - 1;
    assert((0 * target_span + span / 2) / span == 0) by (nonlinear_arith)
        requires
            span > 0,
    ;
    assert((span * target_span + span / 2) / span == target_span) by (nonlinear_arith)
        requires
            span > 0,
            target_span >= 0,
    ;
}

/// Moving along an edge never moves the pointer back along the edge across.
pub proof fn law_edge_mapping_is_monotonic(a: int, b: int, source_length: int, target_length: int)
    requires
        0 <= a <= b,
        target_length > 0,
    ensures
        proportional_offset(a, source_length, target_length) <= proportional_offset(
            b,
            source_length,
            target_length,
        ),
{
    if source_length > 1 {
        let span = source_length - 1;
        let target_span = target_length - 1;
        assert(a * target_span <= b * target_span) by (nonlinear_arith)
            requires
                0 <= a <= b,
                target_span >= 0,
        ;
        let x = a * target_span + span / 2;
        let y = b * target_span + span / 2;
        assert(x / span <= y / span) by (nonlinear_arith)
            requires
                x <= y,
                span > 0,
        ;
    }
}

/// Between edges of one length a position keeps its offset.
pub proof fn law_edge_mapping_keeps_offsets_of_equal_edges(offset: int, length: int)
    requires
        0 <= offset < length,
    ensures
        proportional_offset(offset, length, length) == offset,
{
    if length > 1 {
        let span = length - 1;
        assert((offset * span + span / 2) / span == offset) by (nonlinear_arith)
            requires
                span > 0,
        ;
    }
}

/// A crossing leads to another desktop in the slot beyond the edge, and to a
/// pixel of it.
pub proof fn law_crossing_enters_the_neighbor(
    screens: Seq<PlacementView>,
    node: Seq<char>,
    edge: Edge,
    offset: int,
)
    requires
        is_grid_topology(screens),
        offset >= 0,
        forall|i: int|
            0 <= i < screens.len() ==> (#[trigger] screens[i]).size.width@ > 0
                && screens[i].size.height@ > 0,
    ensures
        crossing(screens, node, edge, offset) matches Some((target, (x, y))) ==> {
            &&& target.node != node
            &&& placement_of(screens, node) matches Some(source)
            &&& source.slot.beyond(edge) == Some(target.slot)
            &&& 0 <= x < target.size.width@
            &&& 0 <= y < target.size.height@
        },
{
    if let Some((target, (x, y))) = crossing(screens, node, edge, offset) {
        let source = placement_of(screens, node)->Some_0;
        let from = choose|i: int| is_first_of_node(screens, node, i);
        assert(is_first_of_node(screens, node, from));
        assert(is_placed_well(screens, from));
        let slot = source.slot.beyond(edge)->Some_0;
        let to = choose|i: int| is_first_in_slot(screens, slot, i);
        assert(is_first_in_slot(screens, slot, to));
        assert(is_placed_well(screens, to));
        if target.node == node {
            assert(from != to);
            assert(from < to);
            assert(repeats_node(screens, to));
        }
        let source_length = length_along(source.size, edge);
        let target_length = length_along(target.size, edge);
        assert(proportional_offset(offset, source_length, target_length) >= 0) by {
            if source_length > 1 {
                let span = source_length - 1;
                let target_span = target_length - 1;
                assert((offset * target_span + span / 2) / span >= 0) by (nonlinear_arith)
                    requires
                        offset >= 0,
                        target_span >= 0,
                        span > 0,
                ;
            }
        }
    }
}

impl Edge {
    pub open spec fn name_text(self) -> Seq<char> {
        match self {
            Edge::Left => "Left"@,
            Edge::Right => "Right"@,
            Edge::Top => "Top"@,
            Edge::Bottom => "Bottom"@,
        }
    }

    pub fn name(self) -> (name: &'static str)
        ensures
            name@ == self.name_text(),
    {
        match self {
            Edge::Left => "Left",
            Edge::Right => "Right",
            Edge::Top => "Top",
            Edge::Bottom => "Bottom",
        }
    }
}

impl TopologyError {
    /// The error in words.
    pub open spec fn text(self) -> Seq<char> {
        match self {
            TopologyError::Empty => "topology must contain at least one screen"@,
            TopologyError::DuplicateNode(node) => {
                "node `"@ + node@ + "` appears more than once in the topology"@
            },
            TopologyError::SlotOutOfBounds { node, slot } => {
                "screen for `"@ + node@ + "` uses grid slot ("@
                    + crate::text::decimal(slot.column as nat) + ", "@
                    + crate::text::decimal(slot.row as nat) + "), outside the "@
                    + crate::text::decimal(TOPOLOGY_COLUMNS as nat) + "x"@
                    + crate::text::decimal(TOPOLOGY_ROWS as nat) + " topology"@
            },
            TopologyError::OccupiedSlot(slot) => {
                "grid slot ("@ + crate::text::decimal(slot.column as nat) + ", "@
                    + crate::text::decimal(slot.row as nat) + ") contains more than one screen"@
            },
            TopologyError::DisconnectedNode(node) => {
                "screen for `"@ + node@ + "` is not adjacent to the connected topology"@
            },
        }
    }

    /// The error in words.
    pub fn message(&self) -> (message: String)
        ensures
            message@ == self.text(),
    {
        let mut message = String::new();
        match self {
            TopologyError::Empty => message.append("topology must contain at least one screen"),
            TopologyError::DuplicateNode(node) => {
                message.append("node `");
                message.append(node.as_str());
                message.append("` appears more than once in the topology");
            },
            TopologyError::SlotOutOfBounds { node, slot } => {
                message.append("screen for `");
                message.append(node.as_str());
                message.append("` uses grid slot (");
                push_decimal(&mut message, slot.column as u64);
                message.append(", ");
                push_decimal(&mut message, slot.row as u64);
                message.append("), outside the ");
                push_decimal(&mut message, TOPOLOGY_COLUMNS as u64);
                message.append("x");
                push_decimal(&mut message, TOPOLOGY_ROWS as u64);
                message.append(" topology");
            },
            TopologyError::OccupiedSlot(slot) => {
                message.append("grid slot (");
                push_decimal(&mut message, slot.column as u64);
                message.append(", ");
                push_decimal(&mut message, slot.row as u64);
                message.append(") contains more than one screen");
            },
            TopologyError::DisconnectedNode(node) => {
                message.append("screen for `");
                message.append(node.as_str());
                message.append("` is not adjacent to the connected topology");
            },
        }
        assert(message@ =~= self.text());
        message
    }
}

} // verus!
