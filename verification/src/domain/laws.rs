//! What arrangements of desktops are, and where crossings lead, in terms of
//! slots and pixels.

use vstd::prelude::*;

use crate::domain::geometry::Rect;
use crate::domain::topology::{Edge, GridSlot};

verus! {

/// The number of steps from one slot to another along rows and columns.
pub open spec fn steps_between(a: GridSlot, b: GridSlot) -> int {
    (if a.column < b.column {
        b.column - a.column
    } else {
        a.column - b.column
    }) + (if a.row < b.row {
        b.row - a.row
    } else {
        a.row - b.row
    })
}

/// The pixel `(x, y)` is one of the rectangle, by its corner and its size.
pub open spec fn holds_pixel(bounds: Rect, x: int, y: int) -> bool {
    &&& bounds.origin.x <= x
    &&& x - bounds.origin.x < bounds.size.width@
    &&& bounds.origin.y <= y
    &&& y - bounds.origin.y < bounds.size.height@
}

/// The pixels lie side by side or one above the other.
pub open spec fn are_neighbors(x: int, y: int, u: int, v: int) -> bool {
    ||| x == u && (y == v + 1 || v == y + 1)
    ||| y == v && (x == u + 1 || u == x + 1)
}

/// Some pixel of each lies next to one of the other.
pub open spec fn have_neighboring_pixels(a: Rect, b: Rect) -> bool {
    exists|x: int, y: int, u: int, v: int|
        #![trigger holds_pixel(a, x, y), holds_pixel(b, u, v)]
        holds_pixel(a, x, y) && holds_pixel(b, u, v) && are_neighbors(x, y, u, v)
}

/// Some pixel belongs to both.
pub open spec fn have_a_common_pixel(a: Rect, b: Rect) -> bool {
    exists|x: int, y: int| #[trigger] holds_pixel(a, x, y) && holds_pixel(b, x, y)
}

/// A rectangle covers exactly the pixels from its corner on, as many columns and
/// rows as it is wide and high.
pub proof fn law_rectangles_cover_their_pixels(bounds: Rect, x: int, y: int)
    ensures
        bounds.covers(x, y) <==> holds_pixel(bounds, x, y),
{
}

/// Rectangles overlap exactly where some pixel belongs to both.
pub proof fn law_overlapping_rectangles_have_a_common_pixel(a: Rect, b: Rect)
    requires
        a.size.width@ > 0,
        a.size.height@ > 0,
        b.size.width@ > 0,
        b.size.height@ > 0,
    ensures
        crate::domain::arrangement::bounds_overlap(a, b) <==> have_a_common_pixel(a, b),
{
    if crate::domain::arrangement::bounds_overlap(a, b) {
        let x = if a.origin.x < b.origin.x {
            b.origin.x as int
        } else {
            a.origin.x as int
        };
        let y = if a.origin.y < b.origin.y {
            b.origin.y as int
        } else {
            a.origin.y as int
        };
        assert(holds_pixel(a, x, y) && holds_pixel(b, x, y));
    }
}

/// Rectangles touch exactly where they have no pixel in common and some pixel of
/// one lies next to one of the other.
pub proof fn law_touching_rectangles_have_neighboring_pixels(a: Rect, b: Rect)
    requires
        a.size.width@ > 0,
        a.size.height@ > 0,
        b.size.width@ > 0,
        b.size.height@ > 0,
    ensures
        a.touches(b) <==> have_neighboring_pixels(a, b) && !have_a_common_pixel(a, b),
{
    law_overlapping_rectangles_have_a_common_pixel(a, b);
    let x = if a.origin.x < b.origin.x {
        b.origin.x as int
    } else {
        a.origin.x as int
    };
    let y = if a.origin.y < b.origin.y {
        b.origin.y as int
    } else {
        a.origin.y as int
    };
    if a.touches(b) {
        if a.x0() == b.x1() && a.shares_rows(b) {
            assert(holds_pixel(a, a.x0(), y) && holds_pixel(b, a.x0() - 1, y));
        } else if a.x1() == b.x0() && a.shares_rows(b) {
            assert(holds_pixel(a, a.x1() - 1, y) && holds_pixel(b, a.x1(), y));
        } else if a.y0() == b.y1() {
            assert(holds_pixel(a, x, a.y0()) && holds_pixel(b, x, a.y0() - 1));
        } else {
            assert(holds_pixel(a, x, a.y1() - 1) && holds_pixel(b, x, a.y1()));
        }
    }
    if have_neighboring_pixels(a, b) && !have_a_common_pixel(a, b) {
        let (p, q, u, v) = choose|p: int, q: int, u: int, v: int|
            #![trigger holds_pixel(a, p, q), holds_pixel(b, u, v)]
            holds_pixel(a, p, q) && holds_pixel(b, u, v) && are_neighbors(p, q, u, v);
        assert(!holds_pixel(b, p, q));
        assert(!holds_pixel(a, u, v));
    }
}

/// Edges face each other in pairs.
pub proof fn law_edges_face_each_other(edge: Edge)
    ensures
        edge is Left <==> edge.facing() is Right,
        edge is Right <==> edge.facing() is Left,
        edge is Top <==> edge.facing() is Bottom,
        edge is Bottom <==> edge.facing() is Top,
{
}

/// The slot beyond an edge is one step away in that direction, and there is one
/// exactly where the grid of five by five goes on.
pub proof fn law_slots_beyond_are_one_step_away(slot: GridSlot, edge: Edge)
    requires
        slot.column < 5,
        slot.row < 5,
    ensures
        slot.beyond(edge) is Some <==> match edge {
            Edge::Left => slot.column >= 1,
            Edge::Right => slot.column <= 3,
            Edge::Top => slot.row >= 1,
            Edge::Bottom => slot.row <= 3,
        },
        slot.beyond(edge) matches Some(next) ==> steps_between(slot, next) == 1 && match edge {
            Edge::Left => next.column < slot.column,
            Edge::Right => next.column > slot.column,
            Edge::Top => next.row < slot.row,
            Edge::Bottom => next.row > slot.row,
        },
{
}

/// Slots are adjacent exactly where one step leads from one to the other.
pub proof fn law_adjacent_slots_are_one_step_apart(a: GridSlot, b: GridSlot)
    ensures
        a.is_adjacent(b) <==> steps_between(a, b) == 1,
{
}

/// A pixel of an edge of `from` pixels goes to the nearest one of an edge of `to`
/// pixels, by its share of the way from one end to the other; half way between two
/// it goes to the later one.
pub proof fn law_edge_positions_keep_their_share(offset: int, from: int, to: int)
    requires
        0 <= offset < from,
        to > 0,
    ensures
        ({
            let mapped = crate::domain::topology::proportional_offset(offset, from, to);
            &&& 0 <= mapped < to
            &&& from == 1 ==> mapped == 0
            &&& from > 1 ==> 2 * (offset * (to - 1) - mapped * (from - 1)) < from - 1
            &&& from > 1 ==> 2 * (mapped * (from - 1) - offset * (to - 1)) <= from - 1
        }),
{
    if from > 1 {
        let span = from - 1;
        let wide = to - 1;
        let product = offset * wide;
        let half = span / 2;
        let rounded = (product + half) / span;
        assert(0 <= product <= span * wide) by (nonlinear_arith)
            requires
                product == offset * wide,
                0 <= offset <= span,
                wide >= 0,
        ;
        vstd::arithmetic::div_mod::lemma_fundamental_div_mod(product + half, span);
        vstd::arithmetic::div_mod::lemma_mod_bound(product + half, span);
        let rest = (product + half) % span;
        assert(product + half == span * rounded + rest);
        assert(rounded * span == span * rounded) by (nonlinear_arith);
        assert(rounded >= 0) by (nonlinear_arith)
            requires
                span * rounded + rest >= 0,
                0 <= rest < span,
        ;
        assert(rounded <= wide) by (nonlinear_arith)
            requires
                span * rounded + rest <= span * wide + half,
                0 <= rest,
                0 <= half < span,
        ;
    }
}

/// Where the place along an edge is counted.
pub open spec fn along(edge: Edge, x: int, y: int) -> int {
    if edge is Left || edge is Right {
        y
    } else {
        x
    }
}

/// A crossing on the grid leads one slot on in the direction of the edge and enters
/// the desktop there on the side that faces the edge: through the left edge at its
/// last column, through the right edge at its first, through the top edge at its
/// last row and through the bottom edge at its first. Along the side it keeps its
/// share of the way.
pub proof fn law_grid_crossings_enter_on_the_facing_side(
    screens: Seq<crate::domain::topology::PlacementView>,
    from: int,
    edge: Edge,
    offset: int,
    target: crate::domain::topology::PlacementView,
    x: int,
    y: int,
)
    requires
        crate::domain::topology::is_grid_topology(screens),
        forall|i: int|
            0 <= i < screens.len() ==> (#[trigger] screens[i]).size.width@ > 0
                && screens[i].size.height@ > 0,
        0 <= from < screens.len(),
        offset >= 0,
        crate::domain::topology::crossing(screens, screens[from].node, edge, offset) == Some(
            (target, (x, y)),
        ),
    ensures
        screens.contains(target),
        match edge {
            Edge::Left => target.slot.column + 1 == screens[from].slot.column && target.slot.row
                == screens[from].slot.row,
            Edge::Right => target.slot.column == screens[from].slot.column + 1 && target.slot.row
                == screens[from].slot.row,
            Edge::Top => target.slot.row + 1 == screens[from].slot.row && target.slot.column
                == screens[from].slot.column,
            Edge::Bottom => target.slot.row == screens[from].slot.row + 1 && target.slot.column
                == screens[from].slot.column,
        },
        edge is Left ==> x == target.size.width@ - 1,
        edge is Right ==> x == 0,
        edge is Top ==> y == target.size.height@ - 1,
        edge is Bottom ==> y == 0,
        0 <= x < target.size.width@,
        0 <= y < target.size.height@,
        ({
            let length = if edge is Left || edge is Right {
                screens[from].size.height@
            } else {
                screens[from].size.width@
            };
            let wide = if edge is Left || edge is Right {
                target.size.height@
            } else {
                target.size.width@
            };
            let place = along(edge, x, y);
            &&& offset < length
            &&& length == 1 ==> place == 0
            &&& length > 1 ==> 2 * (offset * (wide - 1) - place * (length - 1)) < length - 1
            &&& length > 1 ==> 2 * (place * (length - 1) - offset * (wide - 1)) <= length - 1
        }),
{
    let node = screens[from].node;
    let source = crate::domain::topology::placement_of(screens, node)->Some_0;
    let first = choose|i: int| crate::domain::topology::is_first_of_node(screens, node, i);
    assert(crate::domain::topology::is_first_of_node(screens, node, first));
    assert(crate::domain::topology::is_placed_well(screens, from));
    assert(first == from) by {
        if first < from {
            assert(screens[first].node == screens[from].node);
            assert(crate::domain::topology::repeats_node(screens, from));
        } else if from < first {
            assert(screens[from].node != node);
        }
    }
    let slot = source.slot.beyond(edge)->Some_0;
    let to = choose|i: int| crate::domain::topology::is_first_in_slot(screens, slot, i);
    assert(crate::domain::topology::is_first_in_slot(screens, slot, to));
    assert(screens[to] == target);
    let length = crate::domain::topology::length_along(source.size, edge);
    let wide = crate::domain::topology::length_along(target.size, edge);
    law_edge_positions_keep_their_share(offset, length, wide);
}

/// A crossing on the grid leads on wherever a desktop stands in the next slot.
pub proof fn law_grid_crossings_reach_every_neighbor(
    screens: Seq<crate::domain::topology::PlacementView>,
    from: int,
    to: int,
    edge: Edge,
    offset: int,
)
    requires
        crate::domain::topology::is_grid_topology(screens),
        0 <= from < screens.len(),
        0 <= to < screens.len(),
        match edge {
            Edge::Left => screens[to].slot.column + 1 == screens[from].slot.column
                && screens[to].slot.row == screens[from].slot.row,
            Edge::Right => screens[to].slot.column == screens[from].slot.column + 1
                && screens[to].slot.row == screens[from].slot.row,
            Edge::Top => screens[to].slot.row + 1 == screens[from].slot.row
                && screens[to].slot.column == screens[from].slot.column,
            Edge::Bottom => screens[to].slot.row == screens[from].slot.row + 1
                && screens[to].slot.column == screens[from].slot.column,
        },
        0 <= offset < if edge is Left || edge is Right {
            screens[from].size.height@
        } else {
            screens[from].size.width@
        },
        screens[to].size.width@ <= 0x8000_0000,
        screens[to].size.height@ <= 0x8000_0000,
    ensures
        crate::domain::topology::crossing(screens, screens[from].node, edge, offset) matches Some(
            (target, _),
        ) && target == screens[to],
{
    assert(crate::domain::topology::is_placed_well(screens, from));
    assert(crate::domain::topology::is_placed_well(screens, to));
    assert(crate::domain::topology::is_first_of_node(screens, screens[from].node, from)) by {
        assert forall|i: int| 0 <= i < from implies (#[trigger] screens[i]).node
            != screens[from].node by {
            if screens[i].node == screens[from].node {
                assert(crate::domain::topology::repeats_node(screens, from));
            }
        }
    }
    assert(crate::domain::topology::is_first_in_slot(screens, screens[to].slot, to)) by {
        assert forall|i: int| 0 <= i < to implies (#[trigger] screens[i]).slot
            != screens[to].slot by {
            if screens[i].slot == screens[to].slot {
                assert(crate::domain::topology::repeats_slot(screens, to));
            }
        }
    }
    crate::domain::topology::lemma_placement_of(screens, screens[from].node, from);
    crate::domain::topology::lemma_placement_in(screens, screens[to].slot, to);
    law_slots_beyond_are_one_step_away(screens[from].slot, edge);
    assert(screens[from].slot.beyond(edge) == Some(screens[to].slot));
}

/// One step leads between the desktops at two indexes.
pub open spec fn slot_links(screens: Seq<crate::domain::topology::PlacementView>) -> spec_fn(
    int,
    int,
) -> bool {
    |i: int, j: int| steps_between(screens[i].slot, screens[j].slot) == 1
}

/// Desktops make up a grid exactly where there is at least one, all belong to
/// different nodes and lie in different slots of the five by five, and every group
/// of them with the first in it that is not all of them has a desktop one step away
/// from it.
pub proof fn law_grids_are_of_one_piece(screens: Seq<crate::domain::topology::PlacementView>)
    ensures
        crate::domain::topology::is_grid_topology(screens) <==> {
            &&& screens.len() > 0
            &&& forall|i: int, j: int|
                0 <= i < j < screens.len() ==> (#[trigger] screens[i]).node != (
                #[trigger] screens[j]).node && screens[i].slot != screens[j].slot
            &&& forall|i: int|
                0 <= i < screens.len() ==> (#[trigger] screens[i]).slot.column < 5
                    && screens[i].slot.row < 5
            &&& forall|part: Set<int>|
                part.contains(0) && #[trigger] crate::domain::reachability::leaves_out(
                    screens.len() as int,
                    part,
                ) ==> crate::domain::reachability::leads_out(
                    screens.len() as int,
                    slot_links(screens),
                    part,
                )
        },
{
    let count = screens.len() as int;
    let given = crate::domain::topology::slot_adjacency(screens);
    let links = slot_links(screens);
    assert forall|j: int, k: int| 0 <= j < count && 0 <= k < count implies #[trigger] given(j, k)
        == links(j, k) by {
        law_adjacent_slots_are_one_step_apart(screens[j].slot, screens[k].slot);
    }
    assert forall|i: int| #[trigger] crate::domain::reachability::is_reachable(count, given, i)
        == crate::domain::reachability::is_reachable(count, links, i) by {
        crate::domain::reachability::lemma_same_links_same_reach(count, given, links, i);
    }
    let distinct = forall|i: int, j: int|
        0 <= i < j < screens.len() ==> (#[trigger] screens[i]).node != (#[trigger] screens[j]).node
            && screens[i].slot != screens[j].slot;
    if crate::domain::topology::is_grid_topology(screens) {
        assert forall|i: int, j: int| 0 <= i < j < screens.len() implies (
        #[trigger] screens[i]).node != (#[trigger] screens[j]).node && screens[i].slot
            != screens[j].slot by {
            assert(crate::domain::topology::is_placed_well(screens, j));
        }
        assert forall|i: int| 0 <= i < screens.len() implies (#[trigger] screens[i]).slot.column
            < 5 && screens[i].slot.row < 5 by {
            assert(crate::domain::topology::is_placed_well(screens, i));
        }
        assert forall|i: int| 0 <= i < count implies #[trigger]
            crate::domain::reachability::is_reachable(count, links, i) by {
            assert(crate::domain::topology::is_joined(screens, i));
            assert(crate::domain::reachability::is_reachable(count, given, i));
        }
        assert forall|part: Set<int>|
            part.contains(0) && #[trigger] crate::domain::reachability::leaves_out(
                count,
                part,
            ) implies crate::domain::reachability::leads_out(count, links, part) by {
            crate::domain::reachability::law_connected_groups_have_no_part_apart(
                count,
                links,
                part,
            );
        }
    }
    if screens.len() > 0 && distinct && (forall|i: int|
        0 <= i < screens.len() ==> (#[trigger] screens[i]).slot.column < 5 && screens[i].slot.row
            < 5) && (forall|part: Set<int>|
        part.contains(0) && #[trigger] crate::domain::reachability::leaves_out(count, part)
            ==> crate::domain::reachability::leads_out(count, links, part)) {
        crate::domain::reachability::law_groups_without_a_part_apart_are_connected(count, links);
        assert forall|i: int| 0 <= i < screens.len() implies #[trigger]
            crate::domain::topology::is_joined(screens, i) by {
            assert(crate::domain::reachability::is_reachable(count, links, i));
            assert(crate::domain::reachability::is_reachable(count, given, i));
        }
        assert forall|i: int| 0 <= i < screens.len() implies #[trigger]
            crate::domain::topology::is_placed_well(screens, i) by {}
    }
}

/// Some pixels of the desktops at two indexes lie next to each other.
pub open spec fn pixel_links(screens: Seq<crate::domain::arrangement::PlacementView>) -> spec_fn(
    int,
    int,
) -> bool {
    |i: int, j: int|
        have_neighboring_pixels(screens[i].bounds, screens[j].bounds) && !have_a_common_pixel(
            screens[i].bounds,
            screens[j].bounds,
        )
}

/// Desktops are an arrangement exactly where there is at least one, all belong to
/// different nodes, no pixel belongs to two of them, and every group of them with
/// the first in it that is not all of them has a desktop next to it.
pub proof fn law_arrangements_are_of_one_piece(
    screens: Seq<crate::domain::arrangement::PlacementView>,
)
    requires
        forall|i: int|
            0 <= i < screens.len() ==> (#[trigger] screens[i]).bounds.size.width@ > 0
                && screens[i].bounds.size.height@ > 0,
    ensures
        crate::domain::arrangement::is_arrangement(screens) <==> {
            &&& screens.len() > 0
            &&& forall|i: int, j: int|
                0 <= i < j < screens.len() ==> (#[trigger] screens[i]).node != (
                #[trigger] screens[j]).node && !have_a_common_pixel(
                    screens[i].bounds,
                    screens[j].bounds,
                )
            &&& forall|part: Set<int>|
                part.contains(0) && #[trigger] crate::domain::reachability::leaves_out(
                    screens.len() as int,
                    part,
                ) ==> crate::domain::reachability::leads_out(
                    screens.len() as int,
                    pixel_links(screens),
                    part,
                )
        },
{
    let count = screens.len() as int;
    let given = crate::domain::arrangement::edge_adjacency(screens);
    let links = pixel_links(screens);
    assert forall|j: int, k: int| 0 <= j < count && 0 <= k < count implies #[trigger] given(j, k)
        == links(j, k) by {
        law_touching_rectangles_have_neighboring_pixels(screens[j].bounds, screens[k].bounds);
    }
    assert forall|i: int| #[trigger] crate::domain::reachability::is_reachable(count, given, i)
        == crate::domain::reachability::is_reachable(count, links, i) by {
        crate::domain::reachability::lemma_same_links_same_reach(count, given, links, i);
    }
    assert forall|i: int, j: int| 0 <= i < screens.len() && 0 <= j < screens.len() implies
        crate::domain::arrangement::bounds_overlap(
        (#[trigger] screens[i]).bounds,
        (#[trigger] screens[j]).bounds,
    ) == have_a_common_pixel(screens[i].bounds, screens[j].bounds) by {
        law_overlapping_rectangles_have_a_common_pixel(screens[i].bounds, screens[j].bounds);
    }
    if crate::domain::arrangement::is_arrangement(screens) {
        assert forall|i: int, j: int| 0 <= i < j < screens.len() implies (
        #[trigger] screens[i]).node != (#[trigger] screens[j]).node && !have_a_common_pixel(
            screens[i].bounds,
            screens[j].bounds,
        ) by {
            assert(crate::domain::arrangement::is_placed_well(screens, j));
        }
        assert forall|i: int| 0 <= i < count implies #[trigger]
            crate::domain::reachability::is_reachable(count, links, i) by {
            assert(crate::domain::arrangement::is_joined(screens, i));
            assert(crate::domain::reachability::is_reachable(count, given, i));
        }
        assert forall|part: Set<int>|
            part.contains(0) && #[trigger] crate::domain::reachability::leaves_out(
                count,
                part,
            ) implies crate::domain::reachability::leads_out(count, links, part) by {
            crate::domain::reachability::law_connected_groups_have_no_part_apart(
                count,
                links,
                part,
            );
        }
    }
    if screens.len() > 0 && (forall|i: int, j: int|
        0 <= i < j < screens.len() ==> (#[trigger] screens[i]).node != (#[trigger] screens[j]).node
            && !have_a_common_pixel(screens[i].bounds, screens[j].bounds)) && (forall|
        part: Set<int>,
    |
        part.contains(0) && #[trigger] crate::domain::reachability::leaves_out(count, part)
            ==> crate::domain::reachability::leads_out(count, links, part)) {
        crate::domain::reachability::law_groups_without_a_part_apart_are_connected(count, links);
        assert forall|i: int| 0 <= i < screens.len() implies #[trigger]
            crate::domain::arrangement::is_joined(screens, i) by {
            assert(crate::domain::reachability::is_reachable(count, links, i));
            assert(crate::domain::reachability::is_reachable(count, given, i));
        }
        assert forall|i: int| 0 <= i < screens.len() implies #[trigger]
            crate::domain::arrangement::is_placed_well(screens, i) by {}
    }
}

/// In an arrangement each desktop is the one of its node.
pub proof fn lemma_desktop_of_its_node(
    screens: Seq<crate::domain::arrangement::PlacementView>,
    index: int,
)
    requires
        crate::domain::arrangement::is_arrangement(screens),
        0 <= index < screens.len(),
    ensures
        crate::domain::arrangement::placement_of(screens, screens[index].node) == Some(
            screens[index],
        ),
{
    assert(crate::domain::arrangement::is_placed_well(screens, index));
    assert forall|i: int| 0 <= i < index implies (#[trigger] screens[i]).node
        != screens[index].node by {
        if screens[i].node == screens[index].node {
            assert(crate::domain::arrangement::repeats_node(screens, index));
        }
    }
    crate::domain::arrangement::lemma_placement_of(screens, screens[index].node, index);
}

/// In an arrangement no pixel belongs to two desktops.
pub proof fn lemma_pixels_belong_to_one_desktop(
    screens: Seq<crate::domain::arrangement::PlacementView>,
    i: int,
    j: int,
    x: int,
    y: int,
)
    requires
        crate::domain::arrangement::is_arrangement(screens),
        0 <= i < screens.len(),
        0 <= j < screens.len(),
        screens[i].bounds.covers(x, y),
        screens[j].bounds.covers(x, y),
    ensures
        i == j,
{
    if i < j {
        assert(crate::domain::arrangement::is_placed_well(screens, j));
        assert(crate::domain::arrangement::bounds_overlap(screens[i].bounds, screens[j].bounds));
    } else if j < i {
        assert(crate::domain::arrangement::is_placed_well(screens, i));
        assert(crate::domain::arrangement::bounds_overlap(screens[j].bounds, screens[i].bounds));
    }
}

/// A crossing leads straight across the edge: to the pixel next to the one at
/// `offset` along the edge, on the desktop that holds it, counted from the corner
/// of that desktop.
pub proof fn law_crossings_lead_straight_across(
    screens: Seq<crate::domain::arrangement::PlacementView>,
    from: int,
    edge: Edge,
    offset: int,
    target: crate::domain::arrangement::PlacementView,
    x: int,
    y: int,
)
    requires
        crate::domain::arrangement::is_arrangement(screens),
        0 <= from < screens.len(),
        0 <= offset,
        crate::domain::arrangement::crossing(screens, screens[from].node, edge, offset) == Some(
            (target, (x, y)),
        ),
    ensures
        screens.contains(target),
        target.node != screens[from].node,
        0 <= x < target.bounds.size.width@,
        0 <= y < target.bounds.size.height@,
        ({
            let bounds = screens[from].bounds;
            let column = target.bounds.origin.x + x;
            let row = target.bounds.origin.y + y;
            match edge {
                Edge::Left => column + 1 == bounds.origin.x && row == bounds.origin.y + offset
                    && offset < bounds.size.height@,
                Edge::Right => column == bounds.origin.x + bounds.size.width@ && row
                    == bounds.origin.y + offset && offset < bounds.size.height@,
                Edge::Top => row + 1 == bounds.origin.y && column == bounds.origin.x + offset
                    && offset < bounds.size.width@,
                Edge::Bottom => row == bounds.origin.y + bounds.size.height@ && column
                    == bounds.origin.x + offset && offset < bounds.size.width@,
            }
        }),
{
    lemma_desktop_of_its_node(screens, from);
    let node = screens[from].node;
    let (gx, gy) = screens[from].pixel_beyond(edge, offset);
    let index = choose|index: int|
        crate::domain::arrangement::is_first_showing(screens, node, gx, gy, index);
    assert(crate::domain::arrangement::is_first_showing(screens, node, gx, gy, index));
    assert(screens[index] == target);
}

/// The pixel at `offset` along an edge of the desktop is on the monitor, which
/// reaches that edge.
pub open spec fn is_edge_of_monitor(
    layout: crate::domain::display::LayoutView,
    index: int,
    edge: Edge,
    offset: int,
) -> bool {
    let bounds = layout.monitors[index].bounds;
    &&& 0 <= index < layout.monitors.len()
    &&& match edge {
        Edge::Left => bounds.origin.x == 0,
        Edge::Right => bounds.origin.x + bounds.size.width@ == layout.size.width@,
        Edge::Top => bounds.origin.y == 0,
        Edge::Bottom => bounds.origin.y + bounds.size.height@ == layout.size.height@,
    }
    &&& if edge is Left || edge is Right {
        bounds.origin.y <= offset && offset - bounds.origin.y < bounds.size.height@
    } else {
        bounds.origin.x <= offset && offset - bounds.origin.x < bounds.size.width@
    }
}

/// An edge may be crossed only where a monitor reaches it.
pub proof fn law_crossings_start_on_a_monitor(
    screens: Seq<crate::domain::arrangement::PlacementView>,
    from: int,
    edge: Edge,
    offset: int,
)
    requires
        crate::domain::arrangement::is_arrangement(screens),
        0 <= from < screens.len(),
        crate::domain::arrangement::crossing(
            screens,
            screens[from].node,
            edge,
            offset,
        ) matches Some((target, (x, y))),
    ensures
        exists|monitor: int| #[trigger]
            is_edge_of_monitor(screens[from].layout, monitor, edge, offset),
        crate::domain::arrangement::crossing(
            screens,
            screens[from].node,
            edge,
            offset,
        ) matches Some((target, (x, y))) && exists|monitor: int|
            0 <= monitor < target.layout.monitors.len() && holds_pixel(
                (#[trigger] target.layout.monitors[monitor]).bounds,
                x,
                y,
            ),
{
    lemma_desktop_of_its_node(screens, from);
    let node = screens[from].node;
    let layout = screens[from].layout;
    let at = choose|i: int|
        0 <= i < layout.monitors.len() && #[trigger] layout.monitors[i].reaches(layout.size, edge)
            && layout.monitors[i].start_along(edge) <= offset < layout.monitors[i].end_along(edge);
    assert(is_edge_of_monitor(layout, at, edge, offset));
    let (gx, gy) = screens[from].pixel_beyond(edge, offset);
    let index = choose|index: int|
        crate::domain::arrangement::is_first_showing(screens, node, gx, gy, index);
    assert(crate::domain::arrangement::is_first_showing(screens, node, gx, gy, index));
    let (target, (x, y)) = crate::domain::arrangement::crossing(
        screens,
        node,
        edge,
        offset,
    )->Some_0;
    assert(screens[index] == target);
    let shown = choose|i: int|
        0 <= i < target.layout.monitors.len() && #[trigger] target.layout.monitors[
            i
        ].bounds.covers(x, y);
    assert(holds_pixel(target.layout.monitors[shown].bounds, x, y));
}

/// Where a monitor reaches the edge, and a monitor of another desktop holds the
/// pixel next to it, the edge can be crossed there to that desktop.
pub proof fn law_crossings_reach_every_neighboring_pixel(
    screens: Seq<crate::domain::arrangement::PlacementView>,
    from: int,
    to: int,
    edge: Edge,
    offset: int,
    monitor: int,
    shown: int,
)
    requires
        crate::domain::arrangement::is_arrangement(screens),
        0 <= from < screens.len(),
        0 <= to < screens.len(),
        from != to,
        is_edge_of_monitor(screens[from].layout, monitor, edge, offset),
        0 <= offset < if edge is Left || edge is Right {
            screens[from].bounds.size.height@
        } else {
            screens[from].bounds.size.width@
        },
        0 <= shown < screens[to].layout.monitors.len(),
        ({
            let bounds = screens[from].bounds;
            let corner = screens[to].bounds.origin;
            let x = match edge {
                Edge::Left => bounds.origin.x - 1,
                Edge::Right => bounds.origin.x + bounds.size.width@,
                Edge::Top | Edge::Bottom => bounds.origin.x + offset,
            };
            let y = match edge {
                Edge::Top => bounds.origin.y - 1,
                Edge::Bottom => bounds.origin.y + bounds.size.height@,
                Edge::Left | Edge::Right => bounds.origin.y + offset,
            };
            &&& holds_pixel(screens[to].bounds, x, y)
            &&& holds_pixel(screens[to].layout.monitors[shown].bounds, x - corner.x, y - corner.y)
            &&& x - corner.x <= i32::MAX
            &&& y - corner.y <= i32::MAX
        }),
    ensures
        crate::domain::arrangement::crossing(
            screens,
            screens[from].node,
            edge,
            offset,
        ) matches Some((target, _)) && target == screens[to],
{
    lemma_desktop_of_its_node(screens, from);
    let node = screens[from].node;
    let layout = screens[from].layout;
    assert(layout.monitors[monitor].reaches(layout.size, edge));
    assert(layout.exposes(edge, offset));
    let (x, y) = screens[from].pixel_beyond(edge, offset);
    let corner = screens[to].bounds.origin;
    assert(screens[to].layout.monitors[shown].bounds.covers(x - corner.x, y - corner.y));
    assert(screens[to].shows(x, y));
    assert(screens[to].node != node) by {
        assert(crate::domain::arrangement::is_placed_well(screens, from));
        assert(crate::domain::arrangement::is_placed_well(screens, to));
        if screens[to].node == node {
            if from < to {
                assert(crate::domain::arrangement::repeats_node(screens, to));
            } else {
                assert(crate::domain::arrangement::repeats_node(screens, from));
            }
        }
    }
    assert forall|i: int| 0 <= i < to implies (#[trigger] screens[i]).node == node
        || !screens[i].shows(x, y) by {
        if screens[i].shows(x, y) {
            lemma_pixels_belong_to_one_desktop(screens, i, to, x, y);
        }
    }
    assert(crate::domain::arrangement::is_first_showing(screens, node, x, y, to));
    crate::domain::arrangement::lemma_neighbor_showing(screens, node, x, y, to);
}

/// The monitor ends where the desktop of this size ends in a direction.
pub open spec fn ends_with_desktop(
    bounds: Rect,
    size: crate::domain::geometry::Size,
    edge: Edge,
) -> bool {
    match edge {
        Edge::Left => bounds.origin.x == 0,
        Edge::Right => bounds.origin.x + bounds.size.width@ == size.width@,
        Edge::Top => bounds.origin.y == 0,
        Edge::Bottom => bounds.origin.y + bounds.size.height@ == size.height@,
    }
}

/// Some monitor ends where the desktop ends in a direction.
pub open spec fn some_monitor_ends(
    layout: crate::domain::display::LayoutView,
    edge: Edge,
) -> bool {
    exists|i: int|
        0 <= i < layout.monitors.len() && ends_with_desktop(
            (#[trigger] layout.monitors[i]).bounds,
            layout.size,
            edge,
        )
}

/// The monitors of a desktop are acceptable exactly where there are one to 32, no
/// name takes more than 128 bytes, each lies inside the desktop, and some monitor
/// ends with the desktop in each direction.
pub proof fn law_layouts_fill_their_desktop(layout: crate::domain::display::LayoutView)
    ensures
        layout.is_valid() <==> {
            &&& 1 <= layout.monitors.len() <= 32
            &&& forall|i: int|
                0 <= i < layout.monitors.len() ==> {
                    let monitor = #[trigger] layout.monitors[i];
                    &&& monitor.name matches Some(name) ==> vstd::utf8::encode_utf8(name).len()
                        <= 128
                    &&& monitor.bounds.origin.x >= 0
                    &&& monitor.bounds.origin.y >= 0
                    &&& monitor.bounds.origin.x + monitor.bounds.size.width@ <= layout.size.width@
                    &&& monitor.bounds.origin.y + monitor.bounds.size.height@
                        <= layout.size.height@
                }
            &&& some_monitor_ends(layout, Edge::Left)
            &&& some_monitor_ends(layout, Edge::Right)
            &&& some_monitor_ends(layout, Edge::Top)
            &&& some_monitor_ends(layout, Edge::Bottom)
        },
{
    assert forall|edge: Edge| #[trigger] layout.is_reached(edge) == some_monitor_ends(
        layout,
        edge,
    ) by {
        if layout.is_reached(edge) {
            let i = choose|i: int|
                0 <= i < layout.monitors.len() && #[trigger] layout.monitors[i].reaches(
                    layout.size,
                    edge,
                );
            assert(ends_with_desktop(layout.monitors[i].bounds, layout.size, edge));
        }
        if some_monitor_ends(layout, edge) {
            let i = choose|i: int|
                0 <= i < layout.monitors.len() && ends_with_desktop(
                    (#[trigger] layout.monitors[i]).bounds,
                    layout.size,
                    edge,
                );
            assert(layout.monitors[i].reaches(layout.size, edge));
        }
    }
    assert(forall|i: int|
        0 <= i < layout.monitors.len() ==> (#[trigger] layout.monitors[i]).is_acceptable(layout.size)
            == {
            let monitor = layout.monitors[i];
            &&& monitor.name matches Some(name) ==> vstd::utf8::encode_utf8(name).len() <= 128
            &&& monitor.bounds.origin.x >= 0
            &&& monitor.bounds.origin.y >= 0
            &&& monitor.bounds.origin.x + monitor.bounds.size.width@ <= layout.size.width@
            &&& monitor.bounds.origin.y + monitor.bounds.size.height@ <= layout.size.height@
        });
    assert(layout.is_reached(Edge::Left) == some_monitor_ends(layout, Edge::Left));
}

} // verus!
