//! Where edges lead, what resized desktops keep, and when the emergency shortcut
//! is complete.

use vstd::prelude::*;

use crate::config::EdgePosition;
use crate::domain::arrangement::PlacementView;
use crate::domain::display::LayoutView;
use crate::domain::geometry::Rect;
use crate::domain::input::{InputEvent, InputKind, KeyAction};
use crate::domain::laws::is_edge_of_monitor;
use crate::domain::topology::Edge;
use crate::runtime::activation::EmergencyShortcut;

verus! {

/// The offset is in one of the parts.
pub open spec fn is_in_some_part(parts: Seq<(u32, u32)>, offset: int) -> bool {
    exists|k: int| 0 <= k < parts.len() && (#[trigger] parts[k]).0 <= offset < parts[k].1
}

/// A monitor reaches the edge at this offset.
pub open spec fn is_on_a_monitor(layout: LayoutView, edge: Edge, offset: int) -> bool {
    exists|monitor: int| #[trigger] is_edge_of_monitor(layout, monitor, edge, offset)
}

proof fn lemma_parts_of_monitors(layout: LayoutView, edge: Edge, offset: int, count: int)
    requires
        layout.is_valid(),
        0 <= count <= layout.monitors.len(),
    ensures
        is_in_some_part(layout.segments_of(edge, count), offset) <==> exists|monitor: int|
            #[trigger] is_edge_of_monitor(layout, monitor, edge, offset) && monitor < count,
    decreases count,
{
    if count > 0 {
        lemma_parts_of_monitors(layout, edge, offset, count - 1);
        crate::domain::laws::law_layouts_fill_their_desktop(layout);
        let earlier = layout.segments_of(edge, count - 1);
        let parts = layout.segments_of(edge, count);
        let monitor = layout.monitors[count - 1];
        assert(layout.has_segment(edge, count - 1) == monitor.reaches(layout.size, edge));
        if is_in_some_part(earlier, offset) {
            let k = choose|k: int|
                0 <= k < earlier.len() && (#[trigger] earlier[k]).0 <= offset < earlier[k].1;
            assert(parts[k] == earlier[k]);
        }
        if is_edge_of_monitor(layout, count - 1, edge, offset) {
            assert(parts[parts.len() - 1].0 <= offset < parts[parts.len() - 1].1);
        }
        if is_in_some_part(parts, offset) {
            let k = choose|k: int|
                0 <= k < parts.len() && (#[trigger] parts[k]).0 <= offset < parts[k].1;
            if k < earlier.len() {
                assert(parts[k] == earlier[k]);
                let at = choose|at: int| #[trigger]
                    is_edge_of_monitor(layout, at, edge, offset) && at < count - 1;
                assert(is_edge_of_monitor(layout, at, edge, offset) && at < count);
            } else {
                assert(is_edge_of_monitor(layout, count - 1, edge, offset));
            }
        }
    }
}

/// The parts of an edge are together what the monitors reach of it.
pub proof fn law_parts_of_an_edge_are_on_monitors(layout: LayoutView, edge: Edge, offset: int)
    requires
        layout.is_valid(),
    ensures
        is_in_some_part(layout.segments(edge), offset) <==> is_on_a_monitor(layout, edge, offset),
{
    lemma_parts_of_monitors(layout, edge, offset, layout.monitors.len() as int);
    if is_on_a_monitor(layout, edge, offset) {
        let at = choose|at: int| #[trigger] is_edge_of_monitor(layout, at, edge, offset);
        assert(at < layout.monitors.len());
    }
}

/// Where two parts of touching edges meet, the offset is in both of them, and
/// behind it lie as many of the places they have in common as before it, or one
/// more.
pub proof fn law_common_parts_are_met_in_the_middle(
    source_start: int,
    source_part: (u32, u32),
    candidate_start: int,
    candidate_part: (u32, u32),
    place: int,
)
    ensures
        match crate::runtime::activation::common_middle(
            source_start,
            source_part,
            candidate_start,
            candidate_part,
        ) {
            Some(offset) => {
                let at = source_start + offset;
                let mirrored = 2 * at + 1 - place;
                let is_common = |p: int|
                    source_part.0 <= p - source_start < source_part.1 && candidate_part.0 <= p
                        - candidate_start < candidate_part.1;
                &&& is_common(at)
                &&& place < at && is_common(place) ==> is_common(mirrored - 1)
                &&& place > at && is_common(place) ==> is_common(mirrored)
            },
            None => !(source_part.0 <= place - source_start < source_part.1 && candidate_part.0
                <= place - candidate_start < candidate_part.1),
        },
{
}

proof fn lemma_met_part(
    source_start: int,
    source_part: (u32, u32),
    candidate_start: int,
    candidate_parts: Seq<(u32, u32)>,
    from: int,
    place: int,
)
    requires
        0 <= from <= candidate_parts.len(),
    ensures
        match crate::runtime::activation::middle_with(
            source_start,
            source_part,
            candidate_start,
            candidate_parts,
            from,
        ) {
            Some(offset) => source_part.0 <= offset < source_part.1 && is_in_some_part(
                candidate_parts,
                source_start + offset - candidate_start,
            ),
            None => source_part.0 <= place - source_start < source_part.1 ==> forall|k: int|
                from <= k < candidate_parts.len() ==> !((#[trigger] candidate_parts[k]).0 <= place
                    - candidate_start < candidate_parts[k].1),
        },
    decreases candidate_parts.len() - from,
{
    if from < candidate_parts.len() {
        law_common_parts_are_met_in_the_middle(
            source_start,
            source_part,
            candidate_start,
            candidate_parts[from],
            place,
        );
        lemma_met_part(
            source_start,
            source_part,
            candidate_start,
            candidate_parts,
            from + 1,
            place,
        );
    }
}

proof fn lemma_met_parts(
    source_start: int,
    source_parts: Seq<(u32, u32)>,
    candidate_start: int,
    candidate_parts: Seq<(u32, u32)>,
    from: int,
    place: int,
)
    requires
        0 <= from <= source_parts.len(),
    ensures
        match crate::runtime::activation::middle_of(
            source_start,
            source_parts,
            candidate_start,
            candidate_parts,
            from,
        ) {
            Some(offset) => is_in_some_part(source_parts, offset as int) && is_in_some_part(
                candidate_parts,
                source_start + offset - candidate_start,
            ),
            None => is_in_some_part(candidate_parts, place - candidate_start) ==> forall|k: int|
                from <= k < source_parts.len() ==> !((#[trigger] source_parts[k]).0 <= place
                    - source_start < source_parts[k].1),
        },
    decreases source_parts.len() - from,
{
    if from < source_parts.len() {
        lemma_met_part(
            source_start,
            source_parts[from],
            candidate_start,
            candidate_parts,
            0,
            place,
        );
        lemma_met_parts(
            source_start,
            source_parts,
            candidate_start,
            candidate_parts,
            from + 1,
            place,
        );
    }
}

/// The desktop begins where the other ends in the direction of the edge.
pub open spec fn lies_beyond(source: Rect, candidate: Rect, edge: Edge) -> bool {
    match edge {
        Edge::Left => candidate.origin.x + candidate.size.width@ == source.origin.x,
        Edge::Right => source.origin.x + source.size.width@ == candidate.origin.x,
        Edge::Top => candidate.origin.y + candidate.size.height@ == source.origin.y,
        Edge::Bottom => source.origin.y + source.size.height@ == candidate.origin.y,
    }
}

/// How much further along the edge the one desktop begins than the other.
pub open spec fn shift_along(source: Rect, candidate: Rect, edge: Edge) -> int {
    if edge is Left || edge is Right {
        source.origin.y - candidate.origin.y
    } else {
        source.origin.x - candidate.origin.x
    }
}

/// The edge that is entered through an edge.
pub open spec fn other_side(edge: Edge) -> Edge {
    match edge {
        Edge::Left => Edge::Right,
        Edge::Right => Edge::Left,
        Edge::Top => Edge::Bottom,
        Edge::Bottom => Edge::Top,
    }
}

/// A desktop is entered through an edge exactly where it lies beyond that edge and
/// somewhere along it a monitor of the one faces a monitor of the other. The offset
/// is such a place.
pub proof fn law_shared_edges_have_monitors_on_both_sides(
    source: PlacementView,
    candidate: PlacementView,
    edge: Edge,
    place: int,
)
    requires
        source.layout.is_valid(),
        candidate.layout.is_valid(),
    ensures
        match crate::runtime::activation::shared_offset(source, candidate, edge) {
            Some(offset) => {
                &&& lies_beyond(source.bounds, candidate.bounds, edge)
                &&& is_on_a_monitor(source.layout, edge, offset as int)
                &&& is_on_a_monitor(
                    candidate.layout,
                    other_side(edge),
                    offset + shift_along(source.bounds, candidate.bounds, edge),
                )
            },
            None => {
                ||| !lies_beyond(source.bounds, candidate.bounds, edge)
                ||| !is_on_a_monitor(source.layout, edge, place)
                ||| !is_on_a_monitor(
                    candidate.layout,
                    other_side(edge),
                    place + shift_along(source.bounds, candidate.bounds, edge),
                )
            },
        },
{
    crate::domain::laws::law_edges_face_each_other(edge);
    let start = crate::runtime::activation::edge_start(source.bounds, edge);
    let other = crate::runtime::activation::edge_start(candidate.bounds, edge);
    let parts = source.layout.segments(edge);
    let facing = candidate.layout.segments(other_side(edge));
    lemma_met_parts(start, parts, other, facing, 0, start + place);
    law_parts_of_an_edge_are_on_monitors(source.layout, edge, place);
    law_parts_of_an_edge_are_on_monitors(candidate.layout, other_side(edge), start + place - other);
    if let Some(offset) = crate::runtime::activation::shared_offset(source, candidate, edge) {
        law_parts_of_an_edge_are_on_monitors(source.layout, edge, offset as int);
        law_parts_of_an_edge_are_on_monitors(
            candidate.layout,
            other_side(edge),
            start + offset - other,
        );
    }
}

/// No monitor is empty.
pub open spec fn have_area(layout: LayoutView) -> bool {
    forall|i: int|
        0 <= i < layout.monitors.len() ==> (#[trigger] layout.monitors[i]).bounds.size.width@ > 0
            && layout.monitors[i].bounds.size.height@ > 0
}

/// What holds of the desktops of a session: they are arranged, each is as large as
/// its layout, and each place on one can be given in `i32`.
pub open spec fn are_desktops(screens: Seq<PlacementView>) -> bool {
    &&& crate::domain::arrangement::is_arrangement(screens)
    &&& forall|i: int|
        0 <= i < screens.len() ==> (#[trigger] screens[i]).layout.is_valid() && have_area(
            screens[i].layout,
        ) && screens[i].bounds.size == screens[i].layout.size
            && screens[i].bounds.size.width@ <= 0x8000_0000
            && screens[i].bounds.size.height@ <= 0x8000_0000
}

proof fn lemma_shared_offset_is_crossed(
    screens: Seq<PlacementView>,
    from: int,
    to: int,
    edge: Edge,
    offset: int,
)
    requires
        are_desktops(screens),
        0 <= from < screens.len(),
        0 <= to < screens.len(),
        from != to,
        lies_beyond(screens[from].bounds, screens[to].bounds, edge),
        is_on_a_monitor(screens[from].layout, edge, offset),
        is_on_a_monitor(
            screens[to].layout,
            other_side(edge),
            offset + shift_along(screens[from].bounds, screens[to].bounds, edge),
        ),
    ensures
        crate::domain::arrangement::crossing(
            screens,
            screens[from].node,
            edge,
            offset,
        ) matches Some((target, _)) && target == screens[to],
{
    let source = screens[from];
    let candidate = screens[to];
    let shifted = offset + shift_along(source.bounds, candidate.bounds, edge);
    crate::domain::laws::law_layouts_fill_their_desktop(source.layout);
    crate::domain::laws::law_layouts_fill_their_desktop(candidate.layout);
    let monitor = choose|monitor: int| #[trigger]
        is_edge_of_monitor(source.layout, monitor, edge, offset);
    let shown = choose|shown: int| #[trigger]
        is_edge_of_monitor(candidate.layout, shown, other_side(edge), shifted);
    assert(crate::domain::arrangement::has_area(source));
    assert(candidate.layout.monitors[shown].bounds.size.width@ > 0);
    crate::domain::laws::law_crossings_reach_every_neighboring_pixel(
        screens,
        from,
        to,
        edge,
        offset,
        monitor,
        shown,
    );
}

proof fn lemma_first_target(
    screens: Seq<PlacementView>,
    at: int,
    edge: Edge,
    from: int,
    other: int,
    place: int,
)
    requires
        are_desktops(screens),
        0 <= at < screens.len(),
        0 <= from <= screens.len(),
        from <= other < screens.len() ==> other != at,
    ensures
        match crate::runtime::activation::first_target(screens, screens[at], edge, from) {
            Some((node, offset)) => crate::domain::arrangement::crossing(
                screens,
                screens[at].node,
                edge,
                offset as int,
            ) matches Some((target, _)) && target.node == node,
            None => from <= other < screens.len() ==> {
                ||| !lies_beyond(screens[at].bounds, screens[other].bounds, edge)
                ||| !is_on_a_monitor(screens[at].layout, edge, place)
                ||| !is_on_a_monitor(
                    screens[other].layout,
                    other_side(edge),
                    place + shift_along(screens[at].bounds, screens[other].bounds, edge),
                )
            },
        },
    decreases screens.len() - from,
{
    if from < screens.len() {
        lemma_first_target(screens, at, edge, from + 1, other, place);
        law_shared_edges_have_monitors_on_both_sides(screens[at], screens[from], edge, place);
        if screens[from].node == screens[at].node {
            crate::domain::laws::lemma_desktop_of_its_node(screens, from);
            crate::domain::laws::lemma_desktop_of_its_node(screens, at);
            if from == other {
                assert(crate::domain::arrangement::is_placed_well(screens, from));
                assert(crate::domain::arrangement::is_placed_well(screens, at));
                if from < at {
                    assert(crate::domain::arrangement::repeats_node(screens, at));
                } else {
                    assert(crate::domain::arrangement::repeats_node(screens, from));
                }
            }
        } else {
            if let Some(offset) = crate::runtime::activation::shared_offset(
                screens[at],
                screens[from],
                edge,
            ) {
                lemma_shared_offset_is_crossed(screens, at, from, edge, offset as int);
            }
        }
    }
}

/// Where an edge has a target, the arrangement is crossed at the offset to that
/// target, whether the place on the edge is known or not.
pub proof fn law_targets_are_reached(
    screens: Seq<PlacementView>,
    at: int,
    edge: Edge,
    position: Option<EdgePosition>,
)
    requires
        are_desktops(screens),
        0 <= at < screens.len(),
        position matches Some(place) ==> place.is_on_edge(),
    ensures
        crate::runtime::activation::target_of(
            screens,
            screens[at].node,
            edge,
            position,
        ) matches Some((node, offset)) ==> (crate::domain::arrangement::crossing(
            screens,
            screens[at].node,
            edge,
            offset as int,
        ) matches Some((target, _)) && target.node == node),
{
    crate::domain::laws::lemma_desktop_of_its_node(screens, at);
    lemma_first_target(screens, at, edge, 0, screens.len() as int, 0);
    if let Some(position) = position {
        let last = screens[at].length_along(edge) - 1;
        assert(crate::domain::arrangement::has_area(screens[at]));
        crate::config::law_places_fall_on_the_nearest_pixel(position, last);
        let pixel = position.nearest_pixel(last);
        let whole: int = 0x6400_0000_0000;
        let product = position@ * last;
        assert(0 <= product <= whole * last) by (nonlinear_arith)
            requires
                product == position@ * last,
                0 <= position@ <= whole,
                last >= 0,
        ;
        assert(0 <= pixel <= last) by (nonlinear_arith)
            requires
                2 * (pixel * whole - product) <= whole,
                2 * (product - pixel * whole) < whole,
                0 <= product <= whole * last,
                whole == 0x6400_0000_0000,
        ;
    }
}

/// Where the place on the edge is not known, an edge has a target as soon as it can
/// be crossed anywhere.
pub proof fn law_open_edges_have_a_target(
    screens: Seq<PlacementView>,
    at: int,
    other: int,
    edge: Edge,
    place: int,
)
    requires
        are_desktops(screens),
        0 <= at < screens.len(),
        0 <= other < screens.len(),
        at != other,
        lies_beyond(screens[at].bounds, screens[other].bounds, edge),
        is_on_a_monitor(screens[at].layout, edge, place),
        is_on_a_monitor(
            screens[other].layout,
            other_side(edge),
            place + shift_along(screens[at].bounds, screens[other].bounds, edge),
        ),
    ensures
        crate::runtime::activation::target_of(screens, screens[at].node, edge, None) is Some,
{
    crate::domain::laws::lemma_desktop_of_its_node(screens, at);
    lemma_first_target(screens, at, edge, 0, other, place);
}

/// The desktop meets none of the others along an axis.
pub open spec fn meets_none(
    screens: Seq<PlacementView>,
    node: Seq<char>,
    current: Rect,
    horizontal: bool,
    count: int,
) -> bool {
    forall|i: int|
        0 <= i < count && (#[trigger] screens[i]).node != node ==> {
            let other = screens[i].bounds;
            if horizontal {
                other.origin.x + other.size.width@ != current.origin.x && current.origin.x
                    + current.size.width@ != other.origin.x
            } else {
                other.origin.y + other.size.height@ != current.origin.y && current.origin.y
                    + current.size.height@ != other.origin.y
            }
        }
}

/// A resized desktop that met none of the others keeps its middle, to half a
/// pixel.
pub proof fn law_resizing_keeps_the_middle(
    screens: Seq<PlacementView>,
    node: Seq<char>,
    current: Rect,
    new_length: int,
    horizontal: bool,
    count: int,
)
    requires
        meets_none(screens, node, current, horizontal, count),
        0 <= count <= screens.len(),
    ensures
        ({
            let low = crate::runtime::activation::resized_low(
                screens,
                node,
                current,
                new_length,
                horizontal,
                count,
            );
            let was = if horizontal {
                2 * current.origin.x + current.size.width@
            } else {
                2 * current.origin.y + current.size.height@
            };
            -1 <= 2 * low + new_length - was <= 1
        }),
    decreases count,
{
    if count > 0 {
        law_resizing_keeps_the_middle(
            screens,
            node,
            current,
            new_length,
            horizontal,
            count - 1,
        );
    } else {
        let grown = if horizontal {
            current.size.width@ - new_length
        } else {
            current.size.height@ - new_length
        };
        crate::numerals::law_halves_round_towards_zero(grown);
    }
}

/// Resizing changes the desktop of the node only: it gets the layout and its size.
/// It fails only where the node has no desktop or its corner would lie outside the
/// coordinates.
pub proof fn law_resizing_changes_one_desktop(
    screens: Seq<PlacementView>,
    node: Seq<char>,
    layout: LayoutView,
)
    ensures
        match crate::runtime::activation::resized(screens, node, layout) {
            Ok(after) => {
                &&& after.len() == screens.len()
                &&& forall|i: int|
                    0 <= i < screens.len() && (#[trigger] screens[i]).node != node ==> after[i]
                        == screens[i]
                &&& forall|i: int|
                    0 <= i < screens.len() ==> (#[trigger] after[i]).node == screens[i].node
                &&& crate::domain::arrangement::placement_of(
                    screens,
                    node,
                ) matches Some(current) && (current.layout != layout ==> forall|i: int|
                    0 <= i < screens.len() && (#[trigger] after[i]).node == node ==> after[i].layout
                        == layout && after[i].bounds.size == layout.size)
            },
            Err(crate::runtime::activation::ResizeFault::UnknownNode(unknown)) => unknown == node
                && crate::domain::arrangement::placement_of(screens, node) is None,
            Err(crate::runtime::activation::ResizeFault::OutOfRange(outside)) => outside == node
                && crate::domain::arrangement::placement_of(screens, node) is Some,
            Err(_) => false,
        },
{
}

/// The event is about one of two keys of the keyboard page: that it is down, or
/// that it is up.
pub open spec fn is_of_key(event: InputEvent, low: u16, high: u16, down: bool) -> bool {
    event.kind matches InputKind::Key { key, action } && key.usage_page == 7 && (key.usage_id
        == low || key.usage_id == high) && (action is Release) == !down
}

/// What the shortcut holds after events.
pub open spec fn watched(shortcut: EmergencyShortcut, events: Seq<InputEvent>) -> EmergencyShortcut
    decreases events.len(),
{
    if events.len() == 0 {
        shortcut
    } else {
        watched(shortcut, events.drop_last()).after(events.last())
    }
}

/// One of two keys went down in the course of the events, and none of them up
/// after that.
pub open spec fn is_kept_down(events: Seq<InputEvent>, low: u16, high: u16) -> bool {
    exists|i: int|
        0 <= i < events.len() && is_of_key(#[trigger] events[i], low, high, true)
            && is_not_let_go(events, low, high, i)
}

/// None of two keys goes up from an event on.
pub open spec fn is_not_let_go(events: Seq<InputEvent>, low: u16, high: u16, from: int) -> bool {
    forall|j: int|
        from <= j < events.len() ==> !is_of_key(
            #[trigger] events[j],
            low,
            high,
            false,
        )
}

/// One of two keys went up in the course of the events, or they were never down,
/// and none of them goes down after that.
pub open spec fn is_kept_up(events: Seq<InputEvent>, low: u16, high: u16) -> bool {
    exists|i: int|
        0 <= i <= events.len() && (i == 0 || is_of_key(
            events[i - 1],
            low,
            high,
            false,
        )) && #[trigger] is_not_taken(events, low, high, i)
}

/// None of two keys goes down or is repeated from an event on.
pub open spec fn is_not_taken(events: Seq<InputEvent>, low: u16, high: u16, from: int) -> bool {
    forall|j: int|
        from <= j < events.len() ==> !is_of_key(
            #[trigger] events[j],
            low,
            high,
            true,
        )
}

proof fn lemma_watched(shortcut: EmergencyShortcut, events: Seq<InputEvent>, low: u16, high: u16)
    requires
        (low == 0xe0 && high == 0xe4) || (low == 0xe2 && high == 0xe6),
    ensures
        ({
            let seen = watched(shortcut, events);
            let held = if low == 0xe0 {
                seen.control
            } else {
                seen.alt
            };
            let before = if low == 0xe0 {
                shortcut.control
            } else {
                shortcut.alt
            };
            &&& is_kept_down(events, low, high) ==> held
            &&& is_kept_up(events, low, high) && !before ==> !held
        }),
    decreases events.len(),
{
    if events.len() > 0 {
        let earlier = events.drop_last();
        lemma_watched(shortcut, earlier, low, high);
        let last = events.last();
        assert(last == events[events.len() - 1]);
        if is_kept_down(events, low, high) && !is_of_key(last, low, high, true) {
            let i = choose|i: int|
                0 <= i < events.len() && is_of_key(
                    #[trigger] events[i],
                    low,
                    high,
                    true,
                ) && is_not_let_go(events, low, high, i);
            assert(is_of_key(earlier[i], low, high, true));
            assert forall|j: int| i <= j < earlier.len() implies !is_of_key(
                #[trigger] earlier[j],
                low,
                high,
                false,
            ) by {
                assert(events[j] == earlier[j]);
            }
            assert(is_not_let_go(earlier, low, high, i));
            assert(is_kept_down(earlier, low, high));
        }
        if is_kept_up(events, low, high) && !is_of_key(last, low, high, false) {
            let i = choose|i: int|
                0 <= i <= events.len() && (i == 0 || is_of_key(
                    events[i - 1],
                    low,
                    high,
                    false,
                )) && #[trigger] is_not_taken(events, low, high, i);
            assert(i < events.len());
            assert forall|j: int| i <= j < earlier.len() implies !is_of_key(
                #[trigger] earlier[j],
                low,
                high,
                true,
            ) by {
                assert(events[j] == earlier[j]);
            }
            assert(is_not_taken(earlier, low, high, i));
            assert(is_kept_up(earlier, low, high));
            assert(!is_of_key(last, low, high, true));
        }
    }
}

/// Pressing escape completes the shortcut where a control key and an alt key are
/// down, left or right. It does not where all control keys or all alt keys are up,
/// and nothing but pressing escape ever does.
pub proof fn law_the_shortcut_is_control_alt_escape(
    events: Seq<InputEvent>,
    event: InputEvent,
)
    ensures
        ({
            let seen = watched(EmergencyShortcut { control: false, alt: false }, events);
            let escape = is_of_key(event, 0x29, 0x29, true) && event.kind->Key_action
                == KeyAction::Press;
            &&& escape && is_kept_down(events, 0xe0, 0xe4) && is_kept_down(events, 0xe2, 0xe6)
                ==> seen.is_completed_by(event)
            &&& is_kept_up(events, 0xe0, 0xe4) ==> !seen.is_completed_by(event)
            &&& is_kept_up(events, 0xe2, 0xe6) ==> !seen.is_completed_by(event)
            &&& !escape ==> !seen.is_completed_by(event)
        }),
{
    let fresh = EmergencyShortcut { control: false, alt: false };
    lemma_watched(fresh, events, 0xe0, 0xe4);
    lemma_watched(fresh, events, 0xe2, 0xe6);
}

/// An edge that is captured may be crossed somewhere, and leads to another desktop
/// somewhere.
pub proof fn law_captured_edges_lead_somewhere(
    screens: Seq<PlacementView>,
    at: int,
    behavior: crate::config::EdgeBehavior,
    edge: Edge,
)
    requires
        are_desktops(screens),
        0 <= at < screens.len(),
        behavior.corner_dead_zone_percent <= 49,
        crate::runtime::activation::is_captured(screens, screens[at].node, behavior, edge),
    ensures
        exists|position: int| #[trigger] behavior.is_allowed(edge, position),
        exists|offset: int|
            (#[trigger] crate::domain::arrangement::crossing(
                screens,
                screens[at].node,
                edge,
                offset,
            )) is Some,
{
    let (start, end) = behavior.active_percent(edge)->Some_0;
    let position: int = start * 0x100_0000_0000;
    assert(position <= end * 0x100_0000_0000);
    assert(behavior.is_allowed(edge, position));
    law_targets_are_reached(screens, at, edge, None);
    let (node, offset) = crate::runtime::activation::target_of(
        screens,
        screens[at].node,
        edge,
        None,
    )->Some_0;
    assert(crate::domain::arrangement::crossing(
        screens,
        screens[at].node,
        edge,
        offset as int,
    ) is Some);
}

/// An edge is captured wherever it may be crossed at some place and a monitor of
/// another desktop faces one of this desktop along it.
pub proof fn law_edges_that_lead_somewhere_are_captured(
    screens: Seq<PlacementView>,
    at: int,
    other: int,
    behavior: crate::config::EdgeBehavior,
    edge: Edge,
    position: int,
    place: int,
)
    requires
        are_desktops(screens),
        0 <= at < screens.len(),
        0 <= other < screens.len(),
        at != other,
        behavior.is_allowed(edge, position),
        lies_beyond(screens[at].bounds, screens[other].bounds, edge),
        is_on_a_monitor(screens[at].layout, edge, place),
        is_on_a_monitor(
            screens[other].layout,
            other_side(edge),
            place + shift_along(screens[at].bounds, screens[other].bounds, edge),
        ),
    ensures
        crate::runtime::activation::is_captured(screens, screens[at].node, behavior, edge),
{
    law_open_edges_have_a_target(screens, at, other, edge, place);
}

} // verus!
