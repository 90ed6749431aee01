//! Where the pointer goes and who hears of it.

use vstd::prelude::*;

use crate::domain::input::{InputEvent, InputKind};
use crate::domain::laws::{have_neighboring_pixels, holds_pixel};
use crate::session::controller::{
    activation_step, crossing_of, epoch_step, flush_step, focused_on, input_step, is_peer,
    lemma_flush_keeps_validity, peers, rearranged, return_step, step, topology_step, ActionView,
    ControllerEvent, ControllerView, ErrorView,
};

verus! {

/// `pixel` is the one that a place in millionths of a pixel falls on.
pub open spec fn falls_on(place: int, pixel: int) -> bool {
    pixel * 1_000_000 <= place < (pixel + 1) * 1_000_000
}

/// Where motion from the pointer's place takes it, in millionths of a pixel of the
/// whole arrangement: across, and down.
pub open spec fn column_after(state: ControllerView, focused: int, dx: int) -> int {
    state.screens[focused].bounds.origin.x * 1_000_000 + state.x + dx
}

pub open spec fn row_after(state: ControllerView, focused: int, dy: int) -> int {
    state.screens[focused].bounds.origin.y * 1_000_000 + state.y + dy
}

/// The desktop at `focused` has focus, and it is not the local one.
pub open spec fn is_remote_focus(state: ControllerView, focused: int) -> bool {
    &&& state.is_valid()
    &&& 0 <= focused < state.screens.len()
    &&& state.screens[focused].node == state.focus
    &&& state.focus != state.local_node
}

proof fn lemma_falls_on(place: int, pixel: int)
    requires
        falls_on(place, pixel),
    ensures
        place / 1_000_000 == pixel,
{
    assert(place / 1_000_000 == pixel) by (nonlinear_arith)
        requires
            pixel * 1_000_000 <= place < (pixel + 1) * 1_000_000,
    ;
}

proof fn lemma_destination(
    state: ControllerView,
    focused: int,
    dx: i64,
    dy: i64,
    px: int,
    py: int,
)
    requires
        is_remote_focus(state, focused),
        falls_on(column_after(state, focused, dx as int), px),
        falls_on(row_after(state, focused, dy as int), py),
        -0x1_0000_0000 <= px <= 0x2_0000_0000,
        -0x1_0000_0000 <= py <= 0x2_0000_0000,
    ensures
        state.focused() == state.screens[focused],
        crate::session::controller::destination_pixel(state, dx, dy) == (px, py),
{
    crate::domain::laws::lemma_desktop_of_its_node(state.screens, focused);
    lemma_falls_on(column_after(state, focused, dx as int), px);
    lemma_falls_on(row_after(state, focused, dy as int), py);
}

proof fn lemma_covering(state: ControllerView, at: int, px: int, py: int)
    requires
        state.is_valid(),
        0 <= at < state.screens.len(),
        holds_pixel(state.screens[at].bounds, px, py),
    ensures
        crate::session::controller::covering(state.screens, px, py) == Some(state.screens[at]),
{
    assert(state.screens[at].bounds.covers(px, py));
    assert forall|i: int| 0 <= i < at implies !(#[trigger] state.screens[i]).bounds.covers(
        px,
        py,
    ) by {
        if state.screens[i].bounds.covers(px, py) {
            crate::domain::laws::lemma_pixels_belong_to_one_desktop(
                state.screens,
                i,
                at,
                px,
                py,
            );
        }
    }
    assert(crate::session::controller::is_first_covering(state.screens, px, py, at));
    let chosen = choose|index: int|
        crate::session::controller::is_first_covering(state.screens, px, py, index);
    assert(crate::session::controller::is_first_covering(state.screens, px, py, chosen));
    crate::domain::laws::lemma_pixels_belong_to_one_desktop(state.screens, chosen, at, px, py);
}

/// Motion that leads onto another desktop next to the focused one moves focus
/// there: the pointer is then on the pixel that it was moved to, counted from the
/// corner of that desktop, in both directions. Only input that cannot be sent, or
/// the end of the epochs, stands in the way.
pub proof fn law_motion_onto_another_desktop_moves_focus(
    state: ControllerView,
    focused: int,
    target: int,
    time: u64,
    dx: i64,
    dy: i64,
    px: int,
    py: int,
)
    requires
        is_remote_focus(state, focused),
        0 <= target < state.screens.len(),
        target != focused,
        falls_on(column_after(state, focused, dx as int), px),
        falls_on(row_after(state, focused, dy as int), py),
        holds_pixel(state.screens[target].bounds, px, py),
        have_neighboring_pixels(state.screens[focused].bounds, state.screens[target].bounds),
        px - state.screens[target].bounds.origin.x <= i32::MAX,
        py - state.screens[target].bounds.origin.y <= i32::MAX,
    ensures
        ({
            let event = InputEvent {
                elapsed_micros: time,
                kind: InputKind::PointerRelative { dx_micropixels: dx, dy_micropixels: dy },
            };
            let moved = input_step(state, event);
            let corner = state.screens[target].bounds.origin;
            &&& moved.outcome is Ok <==> flush_step(state).outcome is Ok && state.epoch < u64::MAX
            &&& moved.outcome is Ok ==> {
                &&& moved.state.focus == state.screens[target].node
                &&& moved.state.focus != state.focus
                &&& moved.state.x == (px - corner.x) * 1_000_000
                &&& moved.state.y == (py - corner.y) * 1_000_000
                &&& moved.state.position().x == px - corner.x
                &&& moved.state.position().y == py - corner.y
                &&& moved.state.events.len() == 0
                &&& moved.state.screens == state.screens
            }
        }),
{
    let event = InputEvent {
        elapsed_micros: time,
        kind: InputKind::PointerRelative { dx_micropixels: dx, dy_micropixels: dy },
    };
    let screens = state.screens;
    let screen = screens[target];
    lemma_destination(state, focused, dx, dy, px, py);
    lemma_covering(state, target, px, py);
    crate::domain::laws::lemma_desktop_of_its_node(screens, target);
    assert(screen.node != state.focus) by {
        if screen.node == state.focus {
            crate::domain::laws::lemma_desktop_of_its_node(screens, focused);
            assert(screens[focused] == screens[target]);
            assert(crate::domain::arrangement::has_area(screens[target]));
            assert(screens[target].bounds.covers(px, py));
            crate::domain::laws::lemma_pixels_belong_to_one_desktop(
                screens,
                focused,
                target,
                px,
                py,
            );
        }
    }
    assert(crate::domain::arrangement::has_area(screens[focused]));
    assert(crate::domain::arrangement::has_area(screens[target]));
    crate::domain::laws::law_touching_rectangles_have_neighboring_pixels(
        screens[focused].bounds,
        screen.bounds,
    );
    crate::domain::laws::law_overlapping_rectangles_have_a_common_pixel(
        screens[focused].bounds,
        screen.bounds,
    );
    assert(!crate::domain::arrangement::bounds_overlap(screens[focused].bounds, screen.bounds)) by {
        if focused < target {
            assert(crate::domain::arrangement::is_placed_well(screens, target));
        } else {
            assert(crate::domain::arrangement::is_placed_well(screens, focused));
            assert(!crate::domain::arrangement::bounds_overlap(
                screens[target].bounds,
                screens[focused].bounds,
            ));
        }
    }
    let local = (px - screen.bounds.origin.x, py - screen.bounds.origin.y);
    assert(crossing_of(state, event) == Ok::<
        Option<(crate::domain::arrangement::PlacementView, (int, int))>,
        ErrorView,
    >(Some((screen, local))));
    lemma_flush_keeps_validity(state);
    if flush_step(state).outcome is Ok {
        crate::session::controller_run::lemma_crossing(state, event, screen, local.0, local.1);
        let sent = flush_step(state).state;
        let moved = focused_on(sent, screen, local.0, local.1);
        assert(crate::session::controller::clamp_pixel(
            local.0,
            screen.bounds.size.width@ as int,
        ) == local.0);
        assert(crate::session::controller::clamp_pixel(
            local.1,
            screen.bounds.size.height@ as int,
        ) == local.1);
        assert((local.0 * 1_000_000) / 1_000_000 == local.0);
        assert((local.1 * 1_000_000) / 1_000_000 == local.1);
    }
}

/// `after` is `place` moved onto a desktop of `length` pixels, to the nearest
/// millionth.
pub open spec fn is_kept_on(place: int, length: int, after: int) -> bool {
    &&& 0 <= after < length * 1_000_000
    &&& place < 0 ==> after == 0
    &&& place >= length * 1_000_000 ==> after == length * 1_000_000 - 1
    &&& 0 <= place < length * 1_000_000 ==> after == place
}

/// Motion keeps focus where it stays on the focused desktop, or leads to no
/// desktop, or to one that is not next to the focused one; the pointer then moves
/// by the distance, as far as the desktop goes.
pub proof fn law_other_motion_stays_on_the_desktop(
    state: ControllerView,
    focused: int,
    time: u64,
    dx: i64,
    dy: i64,
    px: int,
    py: int,
)
    requires
        is_remote_focus(state, focused),
        falls_on(column_after(state, focused, dx as int), px),
        falls_on(row_after(state, focused, dy as int), py),
        -0x1_0000_0000 <= px <= 0x2_0000_0000,
        -0x1_0000_0000 <= py <= 0x2_0000_0000,
        forall|i: int|
            0 <= i < state.screens.len() && i != focused && holds_pixel(
                (#[trigger] state.screens[i]).bounds,
                px,
                py,
            ) ==> !have_neighboring_pixels(state.screens[focused].bounds, state.screens[i].bounds),
    ensures
        ({
            let event = InputEvent {
                elapsed_micros: time,
                kind: InputKind::PointerRelative { dx_micropixels: dx, dy_micropixels: dy },
            };
            let moved = input_step(state, event);
            let size = state.screens[focused].bounds.size;
            &&& moved.state.focus == state.focus
            &&& moved.outcome is Ok ==> {
                &&& moved.state.epoch == state.epoch
                &&& is_kept_on(state.x + dx, size.width@ as int, moved.state.x as int)
                &&& is_kept_on(state.y + dy, size.height@ as int, moved.state.y as int)
            }
        }),
{
    let event = InputEvent {
        elapsed_micros: time,
        kind: InputKind::PointerRelative { dx_micropixels: dx, dy_micropixels: dy },
    };
    let screens = state.screens;
    lemma_destination(state, focused, dx, dy, px, py);
    if let Some(screen) = crate::session::controller::covering(screens, px, py) {
        let at = choose|index: int|
            crate::session::controller::is_first_covering(screens, px, py, index);
        assert(crate::session::controller::is_first_covering(screens, px, py, at));
        if at != focused {
            assert(holds_pixel(screens[at].bounds, px, py));
            assert(crate::domain::arrangement::has_area(screens[focused]));
            assert(crate::domain::arrangement::has_area(screens[at]));
            crate::domain::laws::law_touching_rectangles_have_neighboring_pixels(
                screens[focused].bounds,
                screens[at].bounds,
            );
        }
    }
    assert(!(crossing_of(state, event) matches Ok(Some(_))));
    if crossing_of(state, event) is Ok {
        crate::session::controller_run::lemma_buffering(state, event);
        lemma_observed(state, event);
    }
}

proof fn lemma_observed(state: ControllerView, event: InputEvent)
    requires
        state.is_valid(),
        state.focus != state.local_node,
    ensures
        ({
            let step = crate::session::controller::buffering_step(state, event);
            let seen = crate::session::controller::observed(state, event);
            step.outcome is Ok ==> step.state.x == seen.x && step.state.y == seen.y
        }),
{
    lemma_flush_keeps_validity(state);
}

/// Motion to a place puts the pointer there, as far as the focused desktop goes;
/// keys, buttons and scrolls leave it where it is. None of them moves focus.
pub proof fn law_other_input_keeps_focus(
    state: ControllerView,
    focused: int,
    event: InputEvent,
)
    requires
        is_remote_focus(state, focused),
        !(event.kind is PointerRelative),
    ensures
        input_step(state, event).state.focus == state.focus,
        input_step(state, event).state.epoch == state.epoch,
        input_step(state, event).outcome is Ok ==> match event.kind {
            InputKind::PointerAbsolute(point) => {
                let size = state.screens[focused].bounds.size;
                &&& is_kept_on(
                    point.x * 1_000_000,
                    size.width@ as int,
                    input_step(state, event).state.x as int,
                )
                &&& is_kept_on(
                    point.y * 1_000_000,
                    size.height@ as int,
                    input_step(state, event).state.y as int,
                )
            },
            _ => input_step(state, event).state.x == state.x && input_step(state, event).state.y
                == state.y,
        },
{
    crate::domain::laws::lemma_desktop_of_its_node(state.screens, focused);
    assert(state.focused() == state.screens[focused]);
    assert(crate::domain::arrangement::has_area(state.screens[focused]));
    crate::session::controller_run::lemma_buffering(state, event);
    lemma_observed(state, event);
}

/// Input that arrives while focus is at home is refused, and nothing changes.
pub proof fn law_input_at_home_is_refused(state: ControllerView, event: InputEvent)
    requires
        state.focus == state.local_node,
    ensures
        input_step(state, event).state == state,
        input_step(state, event).outcome == Err::<Seq<ActionView>, ErrorView>(
            ErrorView::InputWhileLocal,
        ),
{
}

/// Input is kept back until 512 events wait: before that nothing is sent, and the
/// event waits behind the others or is taken up by the last of them.
pub proof fn law_input_waits_for_a_full_batch(state: ControllerView, event: InputEvent)
    requires
        state.is_valid(),
        state.focus != state.local_node,
        input_step(state, event).outcome is Ok,
        input_step(state, event).state.focus == state.focus,
        state.events.len() < 511,
    ensures
        input_step(state, event).outcome->Ok_0.len() == 0,
        input_step(state, event).state.events == state.events.push(event) || (state.events.len() > 0
            && input_step(state, event).state.events.drop_last() == state.events.drop_last()
            && input_step(state, event).state.events.len() == state.events.len()),
        input_step(state, event).state.deliveries == state.deliveries,
{
    crate::session::controller_run::lemma_routed_in_place(state, event, Seq::empty());
    crate::session::controller_run::lemma_buffering(state, event);
    if let Ok(Some((screen, (x, y)))) = crossing_of(state, event) {
        if flush_step(state).outcome is Ok {
            crate::session::controller_run::lemma_crossing(state, event, screen, x, y);
        }
    }
    let after = input_step(state, event).state.events;
    if crate::session::coalesce::can_take_up(state.events, event) {
        assert(after.drop_last() =~= state.events.drop_last());
    }
}

/// An activation puts the pointer where the crossing of the local edge leads, and
/// fails only where there is none, where focus is away already, or where the epochs
/// have run out.
pub proof fn law_activations_follow_the_crossing(
    state: ControllerView,
    edge: crate::domain::topology::Edge,
    offset: u32,
)
    requires
        state.is_valid(),
    ensures
        activation_step(state, edge, offset).outcome is Ok <==> state.focus == state.local_node
            && crate::domain::arrangement::crossing(
            state.screens,
            state.local_node,
            edge,
            offset as int,
        ) is Some && state.epoch < u64::MAX,
        activation_step(state, edge, offset).outcome is Ok ==> (
        crate::domain::arrangement::crossing(
            state.screens,
            state.local_node,
            edge,
            offset as int,
        ) matches Some((target, (x, y))) && {
            let next = activation_step(state, edge, offset).state;
            &&& next.focus == target.node
            &&& next.x == x * 1_000_000
            &&& next.y == y * 1_000_000
            &&& next.screens == state.screens
            &&& next.events.len() == 0
        }),
{
    crate::domain::arrangement::lemma_placement_exists(state.screens, state.local_node);
    if let Some((target, (x, y))) = crate::domain::arrangement::crossing(
        state.screens,
        state.local_node,
        edge,
        offset as int,
    ) {
        let from = choose|i: int|
            0 <= i < state.screens.len() && (#[trigger] state.screens[i]).node
                == state.local_node;
        crate::domain::laws::law_crossings_lead_straight_across(
            state.screens,
            from,
            edge,
            offset as int,
            target,
            x,
            y,
        );
        let at = choose|i: int| 0 <= i < state.screens.len() && state.screens[i] == target;
        crate::domain::laws::lemma_desktop_of_its_node(state.screens, at);
        if state.focus == state.local_node {
            crate::session::controller_run::lemma_activation(state, target.node, x, y);
            lemma_crossing_fits(state, from, edge, offset as int, target, x, y);
        }
    }
}

proof fn lemma_crossing_fits(
    state: ControllerView,
    from: int,
    edge: crate::domain::topology::Edge,
    offset: int,
    target: crate::domain::arrangement::PlacementView,
    x: int,
    y: int,
)
    requires
        state.is_valid(),
        0 <= from < state.screens.len(),
        crate::domain::arrangement::crossing(
            state.screens,
            state.screens[from].node,
            edge,
            offset,
        ) == Some((target, (x, y))),
        0 <= x < target.bounds.size.width@,
        0 <= y < target.bounds.size.height@,
    ensures
        crate::session::controller::clamp_pixel(x, target.bounds.size.width@ as int) == x,
        crate::session::controller::clamp_pixel(y, target.bounds.size.height@ as int) == y,
        x <= i32::MAX,
        y <= i32::MAX,
{
}

/// Giving up the remote focus puts the pointer in the middle of the local desktop
/// and forgets what was not sent; at home it changes nothing.
pub proof fn law_returning_home_centers_the_pointer(state: ControllerView, home: int)
    requires
        state.is_valid(),
        0 <= home < state.screens.len(),
        state.screens[home].node == state.local_node,
    ensures
        state.focus == state.local_node ==> return_step(state).state == state && return_step(
            state,
        ).outcome == Ok::<Seq<ActionView>, ErrorView>(seq![]),
        state.focus != state.local_node ==> {
            let next = return_step(state).state;
            let size = state.screens[home].bounds.size;
            &&& return_step(state).outcome is Ok <==> state.epoch < u64::MAX
            &&& next.focus == state.local_node
            &&& next.events.len() == 0
            &&& next.deliveries == state.deliveries
            &&& next.x == (size.width@ as int / 2) * 1_000_000
            &&& next.y == (size.height@ as int / 2) * 1_000_000
        },
{
    crate::domain::laws::lemma_desktop_of_its_node(state.screens, home);
}

/// A new arrangement is taken over as it is. Focus stays with its node, with the
/// pointer where it was as far as the desktop goes, or comes home where the node is
/// gone. Peers that stay keep their count of batches; new ones start afresh and
/// those that are gone are forgotten.
pub proof fn law_new_arrangements_are_taken_over(
    state: ControllerView,
    screens: Seq<crate::domain::arrangement::PlacementView>,
    peer: Seq<char>,
)
    requires
        state.is_valid(),
        crate::domain::arrangement::is_arrangement(screens),
    ensures
        ({
            let step = topology_step(state, screens);
            let next = step.state;
            let known = is_peer(state.screens, state.local_node, peer);
            let remains = is_peer(screens, state.local_node, peer);
            &&& !crate::domain::arrangement::has_node(screens, state.local_node) ==> step.outcome
                == Err::<Seq<ActionView>, ErrorView>(
                ErrorView::LocalNodeMissing(state.local_node),
            ) && next == state
            &&& step.outcome is Ok ==> {
                &&& next.screens == screens
                &&& next.local_node == state.local_node
                &&& next.deliveries.dom().contains(peer) <==> remains
                &&& remains && known ==> next.deliveries[peer] == flush_step(
                    state,
                ).state.deliveries[peer]
                &&& remains && !known ==> next.deliveries[peer].last_sent == 0
                    && next.deliveries[peer].last_acknowledged == 0
                &&& crate::domain::arrangement::has_node(screens, state.focus) ==> next.focus
                    == state.focus
                &&& !crate::domain::arrangement::has_node(screens, state.focus) ==> next.focus
                    == state.local_node
            }
        }),
{
    lemma_flush_keeps_validity(state);
    crate::domain::arrangement::lemma_placement_exists(screens, state.focus);
    crate::domain::arrangement::lemma_placement_exists(screens, state.local_node);
    if crate::domain::arrangement::has_node(screens, state.local_node) && flush_step(
        state,
    ).outcome is Ok {
        crate::session::controller_run::lemma_rearrangement(state, screens);
        let sent = flush_step(state).state;
        assert(sent.deliveries.dom().contains(peer) <==> is_peer(
            state.screens,
            state.local_node,
            peer,
        ));
    }
}

/// In a new arrangement the pointer keeps its place on the focused desktop, as far
/// as that goes.
pub proof fn law_new_arrangements_keep_the_pointer(
    state: ControllerView,
    screens: Seq<crate::domain::arrangement::PlacementView>,
    at: int,
)
    requires
        state.is_valid(),
        crate::domain::arrangement::is_arrangement(screens),
        0 <= at < screens.len(),
        screens[at].node == state.focus,
        topology_step(state, screens).outcome is Ok,
    ensures
        is_kept_on(
            state.x as int,
            screens[at].bounds.size.width@ as int,
            topology_step(state, screens).state.x as int,
        ),
        is_kept_on(
            state.y as int,
            screens[at].bounds.size.height@ as int,
            topology_step(state, screens).state.y as int,
        ),
{
    lemma_flush_keeps_validity(state);
    crate::domain::laws::lemma_desktop_of_its_node(screens, at);
    assert(crate::domain::arrangement::has_area(screens[at]));
    if flush_step(state).outcome is Ok {
        crate::session::controller_run::lemma_rearrangement(state, screens);
    }
}

/// The action tells `peer` that focus is on `target` at `position`, in `epoch`.
pub open spec fn tells_focus(
    action: ActionView,
    peer: Seq<char>,
    target: Seq<char>,
    position: crate::domain::geometry::Point,
    epoch: u64,
) -> bool {
    action matches ActionView::Send { peer: receiver, message } && receiver == peer && (
    message matches crate::protocol::message::SessionView::FocusChanged {
        focus_epoch,
        target: told,
        entry_position,
    } && told == target && entry_position == position && focus_epoch == epoch)
}

proof fn lemma_announced(state: ControllerView, recipients: Set<Seq<char>>, peer: Seq<char>)
    requires
        recipients.contains(peer),
        recipients.finite(),
    ensures
        epoch_step(state, recipients).outcome matches Ok(actions) ==> exists|i: int|
            0 <= i < actions.len() && tells_focus(
                #[trigger] actions[i],
                peer,
                state.focus,
                epoch_step(state, recipients).state.position(),
                epoch_step(state, recipients).state.epoch,
            ),
{
    crate::session::roster::law_sorted_listing_exists(recipients);
    if let Ok(actions) = epoch_step(state, recipients).outcome {
        let listed = crate::session::roster::sorted_listing(recipients);
        assert(listed.contains(peer));
        let at = choose|i: int| 0 <= i < listed.len() && listed[i] == peer;
        let next = epoch_step(state, recipients).state;
        let messages = crate::session::controller::focus_messages(next, listed);
        let skipped = actions.len() - messages.len();
        assert(actions[skipped + at] == messages[at]);
        assert(tells_focus(actions[skipped + at], peer, state.focus, next.position(), next.epoch));
    }
}

proof fn lemma_peers_are_finite(
    screens: Seq<crate::domain::arrangement::PlacementView>,
    local_node: Seq<char>,
)
    ensures
        peers(screens, local_node).finite(),
{
    let nodes = screens.map_values(|screen: crate::domain::arrangement::PlacementView| screen.node);
    assert(peers(screens, local_node).subset_of(nodes.to_set())) by {
        assert forall|node: Seq<char>| peers(screens, local_node).contains(node) implies #[trigger]
            nodes.to_set().contains(node) by {
            let i = choose|i: int| 0 <= i < screens.len() && (#[trigger] screens[i]).node == node;
            assert(nodes[i] == node);
            assert(nodes.contains(node));
        }
    }
    vstd::seq_lib::seq_to_set_is_finite(nodes);
    vstd::set_lib::lemma_set_subset_finite(nodes.to_set(), peers(screens, local_node));
}

/// Whenever a call begins an epoch, every peer hears where focus is then, at which
/// pixel, and in which epoch; after a new arrangement those of the old one hear it
/// as well.
pub proof fn law_every_peer_hears_of_the_focus(
    state: ControllerView,
    event: ControllerEvent,
    peer: Seq<char>,
)
    requires
        state.is_valid(),
        step(state, event).outcome is Ok,
        step(state, event).state.epoch != state.epoch,
        is_peer(state.screens, state.local_node, peer) || is_peer(
            step(state, event).state.screens,
            state.local_node,
            peer,
        ),
    ensures
        exists|i: int|
            0 <= i < step(state, event).outcome->Ok_0.len() && tells_focus(
                #[trigger] step(state, event).outcome->Ok_0[i],
                peer,
                step(state, event).state.focus,
                step(state, event).state.position(),
                step(state, event).state.epoch,
            ),
{
    lemma_flush_keeps_validity(state);
    lemma_peers_are_finite(state.screens, state.local_node);
    let flushed = flush_step(state);
    let sent = flushed.state;
    let actions = step(state, event).outcome->Ok_0;
    let after = step(state, event).state;
    match event {
        ControllerEvent::Activation { edge, offset } => {
            if let Some((target, (x, y))) = crate::domain::arrangement::crossing(
                state.screens,
                state.local_node,
                edge,
                offset as int,
            ) {
                if let Some(screen) = crate::domain::arrangement::placement_of(
                    state.screens,
                    target.node,
                ) {
                    crate::session::controller_run::lemma_activation(state, target.node, x, y);
                    lemma_announced(
                        focused_on(state, screen, x, y),
                        peers(state.screens, state.local_node),
                        peer,
                    );
                }
            }
        },
        ControllerEvent::Input(input) => {
            match crossing_of(state, input) {
                Ok(Some((screen, (x, y)))) => {
                    crate::session::controller_run::lemma_crossing(state, input, screen, x, y);
                    let target = crate::domain::arrangement::placement_of(
                        state.screens,
                        screen.node,
                    )->Some_0;
                    let moved = focused_on(sent, target, x, y);
                    let recipients = peers(sent.screens, sent.local_node);
                    lemma_announced(moved, recipients, peer);
                    let told = epoch_step(moved, recipients).outcome->Ok_0;
                    let at = choose|i: int|
                        0 <= i < told.len() && tells_focus(
                            #[trigger] told[i],
                            peer,
                            after.focus,
                            after.position(),
                            after.epoch,
                        );
                    assert(actions[flushed.outcome->Ok_0.len() + at] == told[at]);
                },
                Ok(None) => {
                    crate::session::controller_run::lemma_buffering(state, input);
                },
                Err(_) => {},
            }
        },
        ControllerEvent::Flush => {},
        ControllerEvent::Rearrangement { screens } => {
            crate::session::controller_run::lemma_rearrangement(state, screens);
            let moved = rearranged(sent, screens);
            let recipients = peers(sent.screens, sent.local_node).union(
                peers(screens, sent.local_node),
            );
            lemma_peers_are_finite(screens, state.local_node);
            assert(recipients.contains(peer));
            lemma_announced(moved, recipients, peer);
            let told = epoch_step(moved, recipients).outcome->Ok_0;
            let at = choose|i: int|
                0 <= i < told.len() && tells_focus(
                    #[trigger] told[i],
                    peer,
                    after.focus,
                    after.position(),
                    after.epoch,
                );
            assert(actions[flushed.outcome->Ok_0.len() + at] == told[at]);
        },
        ControllerEvent::Return => {
            lemma_announced(
                crate::session::controller::centered(
                    ControllerView { events: seq![], ..state },
                ),
                peers(state.screens, state.local_node),
                peer,
            );
        },
    }
}

/// The pixel that the pointer is on is the one that its place falls on.
pub proof fn law_positions_are_whole_pixels(state: ControllerView, px: int, py: int)
    requires
        falls_on(state.x as int, px),
        falls_on(state.y as int, py),
        0 <= px <= i32::MAX,
        0 <= py <= i32::MAX,
    ensures
        state.position().x == px,
        state.position().y == py,
{
    lemma_falls_on(state.x as int, px);
    lemma_falls_on(state.y as int, py);
}

/// What is buffered goes out exactly where fewer than 64 batches wait for an answer
/// of the focused peer and there is a number left. It then waits itself, and nothing
/// is buffered any more; otherwise it stays buffered.
pub proof fn law_buffered_input_goes_out_while_few_batches_wait(state: ControllerView)
    requires
        state.is_valid(),
        state.events.len() > 0,
        state.focus != state.local_node,
    ensures
        ({
            let delivery = state.deliveries[state.focus];
            let after = flush_step(state).state;
            let waiting = delivery.last_sent - delivery.last_acknowledged;
            &&& flush_step(state).outcome is Ok <==> waiting < 64 && delivery.last_sent
                < 0xffff_ffff_ffff_ffff
            &&& flush_step(state).outcome is Err ==> after == state
            &&& flush_step(state).outcome is Ok ==> {
                let now = after.deliveries[state.focus];
                &&& now.last_sent - now.last_acknowledged == waiting + 1
                &&& now.last_acknowledged == delivery.last_acknowledged
                &&& after.events.len() == 0
                &&& after.focus == state.focus && after.epoch == state.epoch
                &&& after.x == state.x && after.y == state.y && after.screens == state.screens
            }
        }),
{
    assert(state.deliveries.dom().contains(state.focus));
}

/// Where nothing is buffered, nothing goes out and nothing changes.
pub proof fn law_nothing_goes_out_of_an_empty_buffer(state: ControllerView)
    requires
        state.events.len() == 0,
    ensures
        flush_step(state).state == state,
        flush_step(state).outcome == Ok::<Seq<ActionView>, ErrorView>(seq![]),
{
}

/// An acknowledgement settles the batches up to its number that were not settled
/// yet, and says how many. Numbers that were not sent are refused, and those that
/// are settled already change nothing. No other peer is affected.
pub proof fn law_acknowledgements_settle_batches(
    state: ControllerView,
    peer: Seq<char>,
    sequence: u64,
    other: Seq<char>,
)
    requires
        state.deliveries.dom().contains(peer),
        other != peer,
    ensures
        ({
            let delivery = state.deliveries[peer];
            let result = crate::session::controller::acknowledged(state, peer, sequence);
            &&& result is Ok <==> sequence <= delivery.last_sent
            &&& result matches Ok((after, settled)) ==> {
                let now = after.deliveries[peer];
                &&& settled >= 0
                &&& now.last_sent == delivery.last_sent
                &&& now.last_acknowledged >= sequence
                &&& now.last_acknowledged - delivery.last_acknowledged == settled
                &&& now.last_acknowledged == sequence || settled == 0
                &&& after.deliveries.dom().contains(other) == state.deliveries.dom().contains(other)
                &&& after.deliveries[other] == state.deliveries[other]
                &&& after.events == state.events && after.focus == state.focus && after.epoch
                    == state.epoch
                &&& after.x == state.x && after.y == state.y && after.screens == state.screens
            }
        }),
        state.deliveries.dom().contains(other) || crate::session::controller::acknowledged(
            state,
            other,
            sequence,
        ) == Err::<(ControllerView, int), ErrorView>(ErrorView::UnknownPeer(other)),
{
}

/// A peer that connects anew has nothing to answer and is sent batches from the
/// first number on. No other peer is affected.
pub proof fn law_new_connections_are_counted_afresh(
    state: ControllerView,
    peer: Seq<char>,
    other: Seq<char>,
)
    requires
        other != peer,
    ensures
        crate::session::controller::restarted(state, peer) is Ok
            <==> state.deliveries.dom().contains(peer),
        crate::session::controller::restarted(state, peer) matches Ok(after) ==> {
            &&& after.deliveries[peer].last_sent == 0
            &&& after.deliveries[peer].last_acknowledged == 0
            &&& crate::session::controller::pending_of(after, peer) == 0
            &&& after.deliveries[other] == state.deliveries[other]
            &&& after.deliveries.dom() == state.deliveries.dom()
            &&& after.events == state.events && after.focus == state.focus
        },
        state.deliveries.dom().contains(peer) ==> crate::session::controller::pending_of(
            state,
            peer,
        ) == state.deliveries[peer].last_sent - state.deliveries[peer].last_acknowledged,
        !state.deliveries.dom().contains(peer) ==> crate::session::controller::pending_of(
            state,
            peer,
        ) == 0,
{
    if let Ok(after) = crate::session::controller::restarted(state, peer) {
        assert(after.deliveries.dom() =~= state.deliveries.dom());
    }
}

} // verus!
