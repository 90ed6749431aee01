//! How machines come to lie on the canvas, in terms of their pixels.

use vstd::prelude::*;

use crate::editor::geometry::{AlignmentAxis, ScreenAlignment, ScreenGeometry};
use crate::editor::screen::ScreenEditorView;

verus! {

/// The pixel `(x, y)` belongs to the machine.
pub open spec fn holds(machine: ScreenGeometry, x: int, y: int) -> bool {
    &&& machine.x <= x
    &&& x - machine.x < machine.width
    &&& machine.y <= y
    &&& y - machine.y < machine.height
}

/// Some pixel belongs to both machines.
pub open spec fn collide(a: ScreenGeometry, b: ScreenGeometry) -> bool {
    exists|x: int, y: int| #[trigger] holds(a, x, y) && holds(b, x, y)
}

/// Some pixel of one machine lies beside one of the other.
pub open spec fn are_side_by_side(a: ScreenGeometry, b: ScreenGeometry) -> bool {
    exists|x: int, y: int| #[trigger]
        holds(a, x, y) && (holds(b, x + 1, y) || holds(b, x - 1, y))
}

/// Some pixel of one machine lies above or below one of the other.
pub open spec fn are_on_top(a: ScreenGeometry, b: ScreenGeometry) -> bool {
    exists|x: int, y: int| #[trigger]
        holds(a, x, y) && (holds(b, x, y + 1) || holds(b, x, y - 1))
}

/// Machines overlap exactly where they have a pixel in common.
pub proof fn law_overlapping_machines_collide(a: ScreenGeometry, b: ScreenGeometry)
    requires
        a.has_area(),
        b.has_area(),
    ensures
        a.intersects(b) <==> collide(a, b),
{
    if a.intersects(b) {
        let x = if a.x < b.x {
            b.x as int
        } else {
            a.x as int
        };
        let y = if a.y < b.y {
            b.y as int
        } else {
            a.y as int
        };
        assert(holds(a, x, y) && holds(b, x, y));
    }
}

/// Machines that do not overlap touch exactly where pixels of them lie next to each
/// other: beside each other, which is the case that comes first, or above each
/// other.
pub proof fn law_touching_machines_have_neighboring_pixels(
    a: ScreenGeometry,
    b: ScreenGeometry,
    index: usize,
)
    requires
        a.has_area(),
        b.has_area(),
        !collide(a, b),
    ensures
        a.touches(b) <==> are_side_by_side(a, b) || are_on_top(a, b),
        crate::editor::geometry::axis_between(a, b, index) == Some(AlignmentAxis::Vertical(index))
            <==> are_side_by_side(a, b),
        crate::editor::geometry::axis_between(a, b, index) == Some(AlignmentAxis::Horizontal(index))
            <==> are_on_top(a, b) && !are_side_by_side(a, b),
        crate::editor::geometry::axis_between(a, b, index) is None <==> !a.touches(b),
{
    law_overlapping_machines_collide(a, b);
    let x = if a.x < b.x {
        b.x as int
    } else {
        a.x as int
    };
    let y = if a.y < b.y {
        b.y as int
    } else {
        a.y as int
    };
    if a.is_beside(b) {
        if a.x + a.width == b.x {
            assert(holds(a, b.x - 1, y) && holds(b, b.x - 1 + 1, y));
        } else {
            assert(holds(a, a.x as int, y) && holds(b, a.x - 1, y));
        }
    }
    if a.is_stacked(b) {
        if a.y + a.height == b.y {
            assert(holds(a, x, b.y - 1) && holds(b, x, b.y - 1 + 1));
        } else {
            assert(holds(a, x, a.y as int) && holds(b, x, a.y - 1));
        }
    }
    if are_side_by_side(a, b) {
        let (p, q) = choose|p: int, q: int| #[trigger]
            holds(a, p, q) && (holds(b, p + 1, q) || holds(b, p - 1, q));
        assert(!holds(b, p, q));
        assert(!holds(a, p + 1, q) || !holds(b, p + 1, q));
        assert(!holds(a, p - 1, q) || !holds(b, p - 1, q));
    }
    if are_on_top(a, b) {
        let (p, q) = choose|p: int, q: int| #[trigger]
            holds(a, p, q) && (holds(b, p, q + 1) || holds(b, p, q - 1));
        assert(!holds(b, p, q));
        assert(!holds(a, p, q + 1) || !holds(b, p, q + 1));
        assert(!holds(a, p, q - 1) || !holds(b, p, q - 1));
    }
}

/// How far apart two numbers are.
pub open spec fn gap(a: int, b: int) -> int {
    if a < b {
        b - a
    } else {
        a - b
    }
}

/// The places to snap to lie to the left of the other machine, to its right, above
/// it and below it. Along that side the machine moves as little as it can and still
/// have a row or column in common with the other.
pub proof fn law_snapping_moves_along_the_side_as_little_as_possible(
    moved: ScreenGeometry,
    other: ScreenGeometry,
    side: int,
    elsewhere: i32,
)
    requires
        moved.has_area(),
        other.has_area(),
        0 <= side < 4,
        i32::MIN <= other.x - moved.width,
        i32::MIN <= other.y - moved.height,
        other.x + other.width <= i32::MAX,
        other.y + other.height <= i32::MAX,
    ensures
        ({
            let (x, y) = crate::editor::geometry::snap_candidate(moved, other, side);
            &&& side == 0 ==> x + moved.width == other.x
            &&& side == 1 ==> x == other.x + other.width
            &&& side == 2 ==> y + moved.height == other.y
            &&& side == 3 ==> y == other.y + other.height
            &&& side < 2 ==> y < other.y + other.height && other.y < y + moved.height
            &&& side >= 2 ==> x < other.x + other.width && other.x < x + moved.width
            &&& side < 2 && elsewhere < other.y + other.height && other.y < elsewhere + moved.height
                ==> gap(y as int, moved.y as int) <= gap(elsewhere as int, moved.y as int)
            &&& side >= 2 && elsewhere < other.x + other.width && other.x < elsewhere + moved.width
                ==> gap(x as int, moved.x as int) <= gap(elsewhere as int, moved.x as int)
        }),
{
}

/// Pixels of two machines lie next to each other, and none belongs to both.
pub open spec fn links(machines: Seq<ScreenGeometry>) -> spec_fn(int, int) -> bool {
    |i: int, j: int|
        i != j && (are_side_by_side(machines[i], machines[j]) || are_on_top(
            machines[i],
            machines[j],
        ))
}

/// Machines without overlap hold together exactly where there are some and every
/// group of them with the first in it that is not all of them has a machine next to
/// it.
pub proof fn law_connected_machines_are_of_one_piece(machines: Seq<ScreenGeometry>)
    requires
        forall|i: int| 0 <= i < machines.len() ==> (#[trigger] machines[i]).has_area(),
        forall|i: int, j: int|
            0 <= i < machines.len() && 0 <= j < machines.len() && i != j ==> !collide(
                #[trigger] machines[i],
                #[trigger] machines[j],
            ),
    ensures
        crate::editor::geometry::are_connected(machines) <==> machines.len() > 0 && forall|
            part: Set<int>,
        |
            part.contains(0) && #[trigger] crate::domain::reachability::leaves_out(
                machines.len() as int,
                part,
            ) ==> crate::domain::reachability::leads_out(
                machines.len() as int,
                links(machines),
                part,
            ),
{
    let count = machines.len() as int;
    let given = crate::editor::geometry::contact(machines);
    let near = links(machines);
    assert forall|j: int, k: int| 0 <= j < count && 0 <= k < count implies #[trigger] given(j, k)
        == near(j, k) by {
        if j != k {
            law_touching_machines_have_neighboring_pixels(machines[j], machines[k], 0);
        }
    }
    assert forall|i: int| #[trigger] crate::domain::reachability::is_reachable(count, given, i)
        == crate::domain::reachability::is_reachable(count, near, i) by {
        crate::domain::reachability::lemma_same_links_same_reach(count, given, near, i);
    }
    if crate::editor::geometry::are_connected(machines) {
        assert forall|i: int| 0 <= i < count implies #[trigger]
            crate::domain::reachability::is_reachable(count, near, i) by {
            assert(crate::domain::reachability::is_reachable(count, given, i));
        }
        assert forall|part: Set<int>|
            part.contains(0) && #[trigger] crate::domain::reachability::leaves_out(
                count,
                part,
            ) implies crate::domain::reachability::leads_out(count, near, part) by {
            crate::domain::reachability::law_connected_groups_have_no_part_apart(
                count,
                near,
                part,
            );
        }
    }
    if machines.len() > 0 && (forall|part: Set<int>|
        part.contains(0) && #[trigger] crate::domain::reachability::leaves_out(count, part)
            ==> crate::domain::reachability::leads_out(count, near, part)) {
        crate::domain::reachability::law_groups_without_a_part_apart_are_connected(count, near);
        assert forall|i: int| 0 <= i < count implies #[trigger]
            crate::domain::reachability::is_reachable(count, given, i) by {
            assert(crate::domain::reachability::is_reachable(count, near, i));
        }
    }
}

/// The square of the distance between the corner of a machine and a place.
pub open spec fn square_distance(from: ScreenGeometry, place: (i32, i32)) -> int {
    (place.0 - from.x) * (place.0 - from.x) + (place.1 - from.y) * (place.1 - from.y)
}

/// A machine that snaps comes to lie no further away than any other place to snap
/// to at which it would overlap no machine and all would hold together. Distances
/// too large for 63 bits count as equal.
pub proof fn law_snapping_goes_to_the_nearest_place(
    screens: Seq<ScreenEditorView>,
    index: int,
    after: Seq<ScreenEditorView>,
    other: int,
    side: int,
)
    requires
        0 <= index < screens.len(),
        crate::editor::machines::is_snapped(screens, index, after),
        crate::editor::machines::placed(screens) is Some,
        0 <= other < screens.len(),
        other != index,
        0 <= side < 4,
        ({
            let machines = crate::editor::machines::placed(screens)->Some_0;
            let place = crate::editor::geometry::snap_candidate(
                machines[index],
                machines[other],
                side,
            );
            let there = machines.update(
                index,
                ScreenGeometry { x: place.0, y: place.1, ..machines[index] },
            );
            &&& crate::editor::geometry::are_connected(there)
            &&& forall|i: int|
                0 <= i < machines.len() && i != index ==> !there[index].intersects(
                    #[trigger] machines[i],
                )
            &&& square_distance(machines[index], place) < i64::MAX
        }),
    ensures
        ({
            let machines = crate::editor::machines::placed(screens)->Some_0;
            let place = crate::editor::geometry::snap_candidate(
                machines[index],
                machines[other],
                side,
            );
            &&& after.len() == screens.len()
            &&& forall|i: int|
                0 <= i < screens.len() && i != index ==> #[trigger] after[i] == screens[i]
            &&& after[index].geometry() matches Some(now) && square_distance(
                machines[index],
                (now.x, now.y),
            ) <= square_distance(machines[index], place) && now.width == machines[index].width
                && now.height == machines[index].height
        }),
{
    let machines = crate::editor::machines::placed(screens)->Some_0;
    let option = 4 * other + side;
    assert(option / 4 == other && option % 4 == side);
    assert(crate::editor::machines::is_snap_option(machines, index, option));
    let chosen = choose|chosen: int|
        crate::editor::machines::is_nearest_option(machines, index, chosen)
            && #[trigger] crate::editor::machines::is_moved_to_option(
            screens,
            machines,
            index,
            chosen,
            after,
        );
    let place = crate::editor::machines::snap_place(machines, index, chosen);
    let given = crate::editor::machines::snap_place(machines, index, option);
    assert(screens[index].geometry() is Some);
    assert(machines[index] == screens[index].geometry()->0);
    crate::editor::screen::law_moved_machines_lie_there(screens[index], place.0, place.1);
    let dx = place.0 - machines[index].x;
    let dy = place.1 - machines[index].y;
    assert(dx * dx >= 0 && dy * dy >= 0) by (nonlinear_arith);
    let ex = given.0 - machines[index].x;
    let ey = given.1 - machines[index].y;
    assert(ex * ex >= 0 && ey * ey >= 0) by (nonlinear_arith);
}

/// Where a machine begins and ends along an axis.
pub open spec fn span(machine: ScreenGeometry, horizontal: bool) -> (int, int) {
    if horizontal {
        (machine.x as int, machine.x + machine.width)
    } else {
        (machine.y as int, machine.y + machine.height)
    }
}

/// A machine that lies somewhere ends at this place along an axis.
pub open spec fn ends_at(place: Option<ScreenGeometry>, horizontal: bool, at: int) -> bool {
    place matches Some(other) && span(other, horizontal).1 == at
}

/// A machine that lies somewhere begins at this place along an axis.
pub open spec fn begins_at(place: Option<ScreenGeometry>, horizontal: bool, at: int) -> bool {
    place matches Some(other) && span(other, horizontal).0 == at
}

/// One of the first `count` other machines ends where this one begins.
pub open spec fn is_met_before(
    screens: Seq<ScreenEditorView>,
    index: int,
    current: ScreenGeometry,
    horizontal: bool,
    count: int,
) -> bool {
    exists|i: int|
        0 <= i < count && i != index && ends_at(
            (#[trigger] screens[i]).geometry(),
            horizontal,
            span(current, horizontal).0,
        )
}

/// One of the first `count` other machines begins where this one ends.
pub open spec fn is_met_behind(
    screens: Seq<ScreenEditorView>,
    index: int,
    current: ScreenGeometry,
    horizontal: bool,
    count: int,
) -> bool {
    exists|i: int|
        0 <= i < count && i != index && begins_at(
            (#[trigger] screens[i]).geometry(),
            horizontal,
            span(current, horizontal).1,
        )
}

/// Where a resized machine begins along an axis.
pub open spec fn begin_after(
    screens: Seq<ScreenEditorView>,
    index: int,
    current: ScreenGeometry,
    length: int,
    horizontal: bool,
    count: int,
) -> int {
    if horizontal {
        crate::editor::machines::resized_x(screens, index, current, length, count)
    } else {
        crate::editor::machines::resized_y(screens, index, current, length, count)
    }
}

proof fn lemma_met_before(
    screens: Seq<ScreenEditorView>,
    index: int,
    current: ScreenGeometry,
    horizontal: bool,
    count: int,
)
    requires
        0 < count <= screens.len(),
    ensures
        is_met_before(screens, index, current, horizontal, count) == (is_met_before(
            screens,
            index,
            current,
            horizontal,
            count - 1,
        ) || (count - 1 != index && ends_at(
            screens[count - 1].geometry(),
            horizontal,
            span(current, horizontal).0,
        ))),
{
    let at = span(current, horizontal).0;
    if is_met_before(screens, index, current, horizontal, count) {
        let i = choose|i: int|
            0 <= i < count && i != index && ends_at(
                (#[trigger] screens[i]).geometry(),
                horizontal,
                at,
            );
        assert(ends_at(screens[i].geometry(), horizontal, at));
    }
}

proof fn lemma_met_behind(
    screens: Seq<ScreenEditorView>,
    index: int,
    current: ScreenGeometry,
    horizontal: bool,
    count: int,
)
    requires
        0 < count <= screens.len(),
    ensures
        is_met_behind(screens, index, current, horizontal, count) == (is_met_behind(
            screens,
            index,
            current,
            horizontal,
            count - 1,
        ) || (count - 1 != index && begins_at(
            screens[count - 1].geometry(),
            horizontal,
            span(current, horizontal).1,
        ))),
{
    let at = span(current, horizontal).1;
    if is_met_behind(screens, index, current, horizontal, count) {
        let i = choose|i: int|
            0 <= i < count && i != index && begins_at(
                (#[trigger] screens[i]).geometry(),
                horizontal,
                at,
            );
        assert(begins_at(screens[i].geometry(), horizontal, at));
    }
}

proof fn lemma_begin_after(
    screens: Seq<ScreenEditorView>,
    index: int,
    current: ScreenGeometry,
    length: int,
    horizontal: bool,
    count: int,
)
    requires
        0 < count <= screens.len(),
    ensures
        ({
            let begin = begin_after(screens, index, current, length, horizontal, count);
            let earlier = begin_after(screens, index, current, length, horizontal, count - 1);
            let (low, high) = span(current, horizontal);
            let before = count - 1 != index && ends_at(
                screens[count - 1].geometry(),
                horizontal,
                low,
            );
            let behind = count - 1 != index && begins_at(
                screens[count - 1].geometry(),
                horizontal,
                high,
            );
            begin == if before {
                low
            } else if behind {
                high - length
            } else {
                earlier
            }
        }),
{
    let place = screens[count - 1].geometry();
    if count - 1 != index && place is Some {
        let other = place->0;
        assert(span(other, horizontal) == if horizontal {
            (other.x as int, other.x1())
        } else {
            (other.y as int, other.y1())
        });
    }
}

/// A machine that gets another length keeps the end at which it meets a machine,
/// where it meets some at one end only. Where it meets none, it keeps its middle, to
/// half a pixel.
pub proof fn law_resized_machines_stay_attached(
    screens: Seq<ScreenEditorView>,
    index: int,
    current: ScreenGeometry,
    length: int,
    horizontal: bool,
    count: int,
)
    requires
        0 <= count <= screens.len(),
    ensures
        ({
            let begin = begin_after(screens, index, current, length, horizontal, count);
            let before = is_met_before(screens, index, current, horizontal, count);
            let behind = is_met_behind(screens, index, current, horizontal, count);
            let (low, high) = span(current, horizontal);
            &&& before && !behind ==> begin == low
            &&& behind && !before ==> begin + length == high
            &&& before && behind ==> begin == low || begin + length == high
            &&& !before && !behind ==> -1 <= 2 * begin + length - (low + high) <= 1
        }),
    decreases count,
{
    let (low, high) = span(current, horizontal);
    if count > 0 {
        law_resized_machines_stay_attached(
            screens,
            index,
            current,
            length,
            horizontal,
            count - 1,
        );
        lemma_met_before(screens, index, current, horizontal, count);
        lemma_met_behind(screens, index, current, horizontal, count);
        lemma_begin_after(screens, index, current, length, horizontal, count);
    } else {
        crate::numerals::law_halves_round_towards_zero(high - low - length);
    }
}

/// A new machine of 1920 by 1080 lies right of the selected one, their middles on
/// one height to half a pixel, and all others stay.
pub proof fn law_new_machines_lie_beside_the_selected_one(
    screens: Seq<ScreenEditorView>,
    selected: int,
    node: Seq<char>,
    beside: ScreenGeometry,
)
    requires
        0 <= selected < screens.len(),
        screens[selected].geometry() == Some(beside),
        beside.x + beside.width <= i32::MAX,
        i32::MIN + 1080 <= beside.y,
        beside.y + beside.height <= i32::MAX,
    ensures
        ({
            let after = crate::editor::machines::with_machine(screens, selected, node);
            &&& after.len() == screens.len() + 1
            &&& forall|i: int| 0 <= i < screens.len() ==> #[trigger] after[i] == screens[i]
            &&& after.last().node == node
            &&& after.last().geometry() matches Some(new) && {
                &&& new.width == 1920
                &&& new.height == 1080
                &&& new.x == beside.x + beside.width
                &&& -1 <= 2 * new.y + 1080 - (2 * beside.y + beside.height) <= 1
            }
        }),
{
    crate::numerals::law_halves_round_towards_zero(beside.height - 1080);
    let x = crate::saturating::clamp_i32(beside.x1());
    let y = crate::saturating::clamp_i32(
        beside.y + crate::saturating::half(beside.height - 1080),
    );
    crate::text::law_decimal_i32_round_trips(x);
    crate::text::law_decimal_i32_round_trips(y);
    crate::text::law_decimal_u32_round_trips(1920);
    crate::text::law_decimal_u32_round_trips(1080);
}

/// When the desktop of this node gets another size, it keeps its corner, and all
/// others move alike: not at all along an axis on which a machine ends where it
/// begins and none begins where it ends, and by what it grew along an axis on which
/// it is the other way round. So what lay next to it still does.
pub proof fn law_machines_move_with_the_local_desktop(
    screens: Seq<ScreenEditorView>,
    index: int,
    layout: crate::domain::display::LayoutView,
    other: int,
)
    requires
        0 <= index < screens.len(),
        0 <= other < screens.len(),
        other != index,
        screens[index].geometry() is Some,
        screens[other].geometry() is Some,
        layout.size.width@ != 0,
        layout.size.height@ != 0,
        screens[index].geometry()->0.x + screens[index].geometry()->0.width - layout.size.width@
            >= i32::MIN,
        screens[index].geometry()->0.y + screens[index].geometry()->0.height - layout.size.height@
            >= i32::MIN,
        screens[index].geometry()->0.x + screens[index].geometry()->0.width <= i32::MAX,
        screens[index].geometry()->0.y + screens[index].geometry()->0.height <= i32::MAX,
    ensures
        ({
            let count = screens.len() as int;
            let after = crate::editor::machines::with_local_desktop(screens, index, layout);
            let current = screens[index].geometry()->0;
            let was = screens[other].geometry()->0;
            let left = is_met_before(screens, index, current, true, count);
            let right = is_met_behind(screens, index, current, true, count);
            let above = is_met_before(screens, index, current, false, count);
            let below = is_met_behind(screens, index, current, false, count);
            let wider = layout.size.width@ - current.width;
            let higher = layout.size.height@ - current.height;
            &&& after.len() == screens.len()
            &&& after[index].layout == layout
            &&& after[other].layout == screens[other].layout
            &&& after[other].geometry() matches Some(now) && {
                &&& now.width == was.width && now.height == was.height
                &&& left && !right ==> now.x == was.x
                &&& right && !left && was.x + wider <= i32::MAX && was.x + wider >= i32::MIN
                    ==> now.x == was.x + wider
                &&& above && !below ==> now.y == was.y
                &&& below && !above && was.y + higher <= i32::MAX && was.y + higher >= i32::MIN
                    ==> now.y == was.y + higher
            }
        }),
{
    let count = screens.len() as int;
    let current = screens[index].geometry()->0;
    let was = screens[other].geometry()->0;
    let width = layout.size.width@;
    let height = layout.size.height@;
    law_resized_machines_stay_attached(screens, index, current, width as int, true, count);
    law_resized_machines_stay_attached(screens, index, current, height as int, false, count);
    let x = crate::saturating::clamp_i32(
        crate::editor::machines::resized_x(screens, index, current, width as int, count),
    );
    let y = crate::saturating::clamp_i32(
        crate::editor::machines::resized_y(screens, index, current, height as int, count),
    );
    crate::text::law_decimal_u32_round_trips(width);
    crate::text::law_decimal_u32_round_trips(height);
    crate::text::law_decimal_i32_round_trips(x);
    crate::text::law_decimal_i32_round_trips(y);
    let wider = crate::editor::machines::resized(screens, index, width, height);
    assert(wider[index].geometry() == Some(ScreenGeometry { x, y, width, height }));
    assert(wider[other] == screens[other]);
    let dx = current.x - x;
    let dy = current.y - y;
    crate::editor::screen::law_moved_machines_lie_there(
        screens[other],
        crate::saturating::clamp_i32(was.x + dx),
        crate::saturating::clamp_i32(was.y + dy),
    );
    let after = crate::editor::machines::with_local_desktop(screens, index, layout);
    assert(after[other] == crate::editor::machines::shifted(screens[other], dx, dy));
}

/// What is aligned begins together, ends together, or has its middle in common, to
/// half a pixel.
pub proof fn law_alignments_line_up(start: int, other_length: int, length: int)
    requires
        i32::MIN <= start <= i32::MAX,
        0 <= length,
        0 <= other_length,
        start + other_length <= i32::MAX,
        i32::MIN <= start + other_length - length,
    ensures
        crate::editor::geometry::aligned(start, other_length, length, ScreenAlignment::Start)
            == start,
        crate::editor::geometry::aligned(start, other_length, length, ScreenAlignment::End) + length
            == start + other_length,
        ({
            let begin = crate::editor::geometry::aligned(
                start,
                other_length,
                length,
                ScreenAlignment::Center,
            );
            -1 <= 2 * begin + length - (2 * start + other_length) <= 1
        }),
{
    crate::numerals::law_halves_round_towards_zero(other_length - length);
}

proof fn lemma_axis_from(screens: Seq<ScreenEditorView>, index: int, from: int)
    requires
        0 <= from <= screens.len() <= usize::MAX,
        0 <= index < screens.len(),
    ensures
        crate::editor::machines::axis_from(screens, index, from) matches Some(axis) ==> {
            let neighbor = crate::editor::machines::neighbor_of(axis);
            &&& from <= neighbor < screens.len()
            &&& neighbor != index
            &&& screens[index].geometry() is Some
            &&& screens[neighbor].geometry() is Some
            &&& crate::editor::geometry::axis_between(
                screens[index].geometry()->0,
                screens[neighbor].geometry()->0,
                neighbor as usize,
            ) == Some(axis)
        },
    decreases screens.len() - from,
{
    if from < screens.len() {
        lemma_axis_from(screens, index, from + 1);
    }
}

/// Aligning moves one machine at most, and only along the side at which it touches
/// its neighbor: side by side it keeps its column, otherwise its row.
pub proof fn law_alignments_keep_machines_side_by_side(
    screens: Seq<ScreenEditorView>,
    index: int,
    alignment: ScreenAlignment,
)
    requires
        0 <= index < screens.len() <= usize::MAX,
    ensures
        ({
            let after = crate::editor::machines::after_alignment(screens, index, alignment);
            &&& after.len() == screens.len()
            &&& forall|i: int|
                0 <= i < screens.len() && i != index ==> #[trigger] after[i] == screens[i]
            &&& crate::editor::machines::axis_of(screens, index) is None ==> after == screens
            &&& crate::editor::machines::axis_of(screens, index) matches Some(axis) ==> {
                let was = screens[index].geometry()->0;
                let neighbor = crate::editor::machines::neighbor_of(axis);
                &&& screens[index].geometry() is Some
                &&& 0 <= neighbor < screens.len()
                &&& neighbor != index
                &&& was.touches(screens[neighbor].geometry()->0)
                &&& after[index].geometry() matches Some(now) && {
                    &&& now.width == was.width && now.height == was.height
                    &&& axis is Vertical ==> now.x == was.x
                    &&& axis is Horizontal ==> now.y == was.y
                }
            }
        }),
{
    lemma_axis_from(screens, index, 0);
    if let Some(axis) = crate::editor::machines::axis_of(screens, index) {
        let was = screens[index].geometry()->0;
        let neighbor = crate::editor::machines::neighbor_of(axis);
        let (x, y) = crate::editor::machines::aligned_place(
            was,
            screens[neighbor].geometry()->0,
            axis,
            alignment,
        );
        crate::editor::screen::law_moved_machines_lie_there(screens[index], x, y);
    }
}

/// A machine that is aligned comes to lie over no third machine. Where it would, it
/// stays; where it would not, it lines up with its neighbor.
pub proof fn law_alignments_line_up_unless_obstructed(
    screens: Seq<ScreenEditorView>,
    index: int,
    alignment: ScreenAlignment,
    now: ScreenGeometry,
    third: int,
)
    requires
        0 <= index < screens.len() <= usize::MAX,
        crate::editor::machines::axis_of(screens, index) is Some,
        crate::editor::machines::after_alignment(screens, index, alignment) != screens,
        crate::editor::machines::after_alignment(screens, index, alignment)[index].geometry()
            == Some(now),
        0 <= third < screens.len(),
        third != index,
        third != crate::editor::machines::neighbor_of(
            crate::editor::machines::axis_of(screens, index)->Some_0,
        ),
    ensures
        screens[third].geometry() matches Some(other) ==> !now.intersects(other),
        ({
            let axis = crate::editor::machines::axis_of(screens, index)->Some_0;
            let other = screens[crate::editor::machines::neighbor_of(axis)].geometry()->0;
            let vertical = axis is Vertical;
            let (begin, end) = span(now, !vertical);
            let (low, high) = span(other, !vertical);
            high <= i32::MAX && high - (end - begin) >= i32::MIN ==> match alignment {
                ScreenAlignment::Start => begin == low,
                ScreenAlignment::Center => -1 <= begin + end - (low + high) <= 1,
                ScreenAlignment::End => end == high,
            }
        }),
{
    lemma_axis_from(screens, index, 0);
    let axis = crate::editor::machines::axis_of(screens, index)->Some_0;
    let was = screens[index].geometry()->0;
    let neighbor = crate::editor::machines::neighbor_of(axis);
    let other = screens[neighbor].geometry()->0;
    let (x, y) = crate::editor::machines::aligned_place(was, other, axis, alignment);
    crate::editor::screen::law_moved_machines_lie_there(screens[index], x, y);
    assert(now == ScreenGeometry { x, y, ..was });
    crate::numerals::law_halves_round_towards_zero(other.height - was.height);
    crate::numerals::law_halves_round_towards_zero(other.width - was.width);
}

} // verus!
