//! Controllers from their start: what holds of all calls of one taken together.

use vstd::prelude::*;

use crate::domain::input::InputEvent;
use crate::protocol::message::MAX_INPUT_EVENTS_PER_BATCH;
use crate::session::controller::{
    acknowledged, batch_of, buffering_step, crossing_of, epoch_step, flush_step, focus_step,
    focused_on, initial, is_peer, law_controller_states_stay_valid, lemma_epoch_actions,
    lemma_flush_keeps_validity, peers, pending_of, rearranged, restarted, step, ActionView,
    ControllerEvent, ControllerStep, ControllerView, ErrorView, MAX_PENDING_BATCHES_PER_PEER,
};

verus! {

/// A call that can change a controller.
pub ghost enum ControllerCall {
    Event(ControllerEvent),
    Acknowledge { peer: Seq<char>, through_sequence: u64 },
    Reset { peer: Seq<char> },
}

/// Only arrangements can be reconciled with.
pub open spec fn is_proper(call: ControllerCall) -> bool {
    call matches ControllerCall::Event(ControllerEvent::Rearrangement { screens })
        ==> crate::domain::arrangement::is_arrangement(screens)
}

/// What a call does and returns.
pub open spec fn call_step(state: ControllerView, call: ControllerCall) -> ControllerStep {
    match call {
        ControllerCall::Event(event) => step(state, event),
        ControllerCall::Acknowledge { peer, through_sequence } => match acknowledged(
            state,
            peer,
            through_sequence,
        ) {
            Ok((next, settled)) => crate::session::controller::done(next, seq![]),
            Err(error) => crate::session::controller::refused(state, error),
        },
        ControllerCall::Reset { peer } => match restarted(state, peer) {
            Ok(next) => crate::session::controller::done(next, seq![]),
            Err(error) => crate::session::controller::refused(state, error),
        },
    }
}

/// The actions that a call returns: none where it is refused.
pub open spec fn actions_of(step: ControllerStep) -> Seq<ActionView> {
    match step.outcome {
        Ok(actions) => actions,
        Err(_) => Seq::empty(),
    }
}

/// The state after all of `calls`.
pub open spec fn after(start: ControllerView, calls: Seq<ControllerCall>) -> ControllerView
    decreases calls.len(),
{
    if calls.len() == 0 {
        start
    } else {
        call_step(after(start, calls.drop_last()), calls.last()).state
    }
}

/// The actions that all of `calls` return, one after the other.
pub open spec fn returned(start: ControllerView, calls: Seq<ControllerCall>) -> Seq<ActionView>
    decreases calls.len(),
{
    if calls.len() == 0 {
        Seq::empty()
    } else {
        returned(start, calls.drop_last()) + actions_of(
            call_step(after(start, calls.drop_last()), calls.last()),
        )
    }
}

/// The state before the call at `index`.
pub open spec fn before(
    start: ControllerView,
    calls: Seq<ControllerCall>,
    index: int,
) -> ControllerView {
    after(start, calls.take(index))
}

/// What the call at `index` does and returns.
pub open spec fn step_at(
    start: ControllerView,
    calls: Seq<ControllerCall>,
    index: int,
) -> ControllerStep {
    call_step(before(start, calls, index), calls[index])
}

/// All calls are proper.
pub open spec fn are_proper(calls: Seq<ControllerCall>) -> bool {
    forall|i: int| 0 <= i < calls.len() ==> is_proper(#[trigger] calls[i])
}

proof fn lemma_shorter_run(start: ControllerView, calls: Seq<ControllerCall>)
    requires
        calls.len() > 0,
        are_proper(calls),
    ensures
        are_proper(calls.drop_last()),
        is_proper(calls.last()),
        before(start, calls, calls.len() - 1) == after(start, calls.drop_last()),
        forall|index: int|
            0 <= index < calls.len() ==> #[trigger] before(start, calls, index) == before(
                start,
                calls.drop_last(),
                index,
            ),
{
    let shorter = calls.drop_last();
    assert(calls.take(calls.len() - 1) =~= shorter);
    assert forall|i: int| 0 <= i < shorter.len() implies is_proper(#[trigger] shorter[i]) by {
        assert(shorter[i] == calls[i]);
    }
    assert(is_proper(calls[calls.len() - 1]));
    assert forall|index: int| 0 <= index < calls.len() implies #[trigger] before(
        start,
        calls,
        index,
    ) == before(start, shorter, index) by {
        assert(calls.take(index) =~= shorter.take(index));
    }
}

/// Every call leads from a valid state to a valid state.
pub proof fn law_calls_keep_controllers_valid(state: ControllerView, call: ControllerCall)
    requires
        state.is_valid(),
        is_proper(call),
    ensures
        call_step(state, call).state.is_valid(),
        call_step(state, call).state.local_node == state.local_node,
{
    let next = call_step(state, call).state;
    match call {
        ControllerCall::Event(event) => {
            law_controller_states_stay_valid(state, event);
            lemma_flush_keeps_validity(state);
        },
        _ => {
            assert(next.deliveries.dom() =~= state.deliveries.dom());
        },
    }
}

proof fn lemma_run_is_valid(start: ControllerView, calls: Seq<ControllerCall>)
    requires
        start.is_valid(),
        are_proper(calls),
    ensures
        after(start, calls).is_valid(),
        after(start, calls).local_node == start.local_node,
    decreases calls.len(),
{
    if calls.len() > 0 {
        lemma_shorter_run(start, calls);
        lemma_run_is_valid(start, calls.drop_last());
        law_calls_keep_controllers_valid(after(start, calls.drop_last()), calls.last());
    }
}

/// A controller starts in a valid state, with nothing sent to any peer.
pub proof fn law_controllers_start_afresh(
    screens: Seq<crate::domain::arrangement::PlacementView>,
    local_node: Seq<char>,
)
    requires
        crate::domain::arrangement::is_arrangement(screens),
        crate::domain::arrangement::has_node(screens, local_node),
    ensures
        initial(screens, local_node).is_valid(),
        forall|peer: Seq<char>|
            is_peer(screens, local_node, peer) ==> (#[trigger] initial(
                screens,
                local_node,
            ).deliveries[peer]) == crate::session::delivery::DeliveryView::fresh(),
{
    crate::domain::arrangement::lemma_placement_exists(screens, local_node);
    let start = initial(screens, local_node);
    assert(start.deliveries.dom() =~= peers(screens, local_node));
}

/// The action releases the capture, tells of the epoch `announced`, or carries
/// input of the epoch `routed`.
pub open spec fn carries_epoch(action: ActionView, routed: u64, announced: u64) -> bool {
    match action {
        ActionView::ReleaseCapture => true,
        ActionView::Send { peer, message } => match message {
            crate::protocol::message::SessionView::Input(batch) => batch.focus_epoch == routed,
            crate::protocol::message::SessionView::FocusChanged {
                focus_epoch,
                target,
                entry_position,
            } => focus_epoch == announced,
            _ => false,
        },
    }
}

pub open spec fn carry_epochs(actions: Seq<ActionView>, routed: u64, announced: u64) -> bool {
    forall|i: int|
        0 <= i < actions.len() ==> carries_epoch(#[trigger] actions[i], routed, announced)
}

/// The call is taken and activates an edge, reconciles with an arrangement, or
/// moves focus.
pub open spec fn begins_epoch(state: ControllerView, call: ControllerCall) -> bool {
    let step = call_step(state, call);
    &&& step.outcome is Ok
    &&& {
        ||| call matches ControllerCall::Event(ControllerEvent::Activation { .. })
        ||| call matches ControllerCall::Event(ControllerEvent::Rearrangement { .. })
        ||| step.state.focus != state.focus
    }
}

/// No action carries input.
spec fn is_plain(actions: Seq<ActionView>) -> bool {
    forall|i: int| 0 <= i < actions.len() ==> batch_of(#[trigger] actions[i]) is None
}

proof fn lemma_announcements(state: ControllerView, recipients: Set<Seq<char>>, routed: u64)
    ensures
        epoch_step(state, recipients).outcome matches Ok(actions) ==> {
            &&& carry_epochs(actions, routed, (state.epoch + 1) as u64)
            &&& is_plain(actions)
        },
{
    if let Ok(actions) = epoch_step(state, recipients).outcome {
        assert forall|i: int| 0 <= i < actions.len() implies carries_epoch(
            #[trigger] actions[i],
            routed,
            (state.epoch + 1) as u64,
        ) && batch_of(actions[i]) is None by {
            lemma_epoch_actions(state, recipients, i);
        }
    }
}

proof fn lemma_epochs_add(a: Seq<ActionView>, b: Seq<ActionView>, routed: u64, announced: u64)
    requires
        carry_epochs(a, routed, announced),
        carry_epochs(b, routed, announced),
    ensures
        carry_epochs(a + b, routed, announced),
{
    assert forall|i: int| 0 <= i < (a + b).len() implies carries_epoch(
        #[trigger] (a + b)[i],
        routed,
        announced,
    ) by {
        if i < a.len() {
            assert(carries_epoch(a[i], routed, announced));
        } else {
            assert(carries_epoch(b[i - a.len()], routed, announced));
        }
    }
}

/// What goes out with a crossing: what was buffered, and behind it the
/// announcement of the new epoch.
pub proof fn lemma_crossing(
    state: ControllerView,
    event: InputEvent,
    screen: crate::domain::arrangement::PlacementView,
    x: int,
    y: int,
)
    requires
        state.is_valid(),
        state.focus != state.local_node,
        crossing_of(state, event) == Ok::<
            Option<(crate::domain::arrangement::PlacementView, (int, int))>,
            ErrorView,
        >(Some((screen, (x, y)))),
        flush_step(state).outcome is Ok,
    ensures
        ({
            let sent = flush_step(state).state;
            let target = crate::domain::arrangement::placement_of(state.screens, screen.node);
            let moved = focused_on(sent, target->Some_0, x, y);
            let told = epoch_step(moved, peers(sent.screens, sent.local_node));
            let whole = crate::session::controller::input_step(state, event);
            &&& target is Some
            &&& moved.focus == screen.node
            &&& screen.node != state.focus
            &&& whole.state == told.state
            &&& match told.outcome {
                Ok(announced) => whole.outcome == Ok::<Seq<ActionView>, ErrorView>(
                    flush_step(state).outcome->Ok_0 + announced,
                ),
                Err(error) => whole.outcome == Err::<Seq<ActionView>, ErrorView>(error),
            }
        }),
{
    lemma_flush_keeps_validity(state);
    let sent = flush_step(state).state;
    let (px, py) = match event.kind {
        crate::domain::input::InputKind::PointerRelative { dx_micropixels, dy_micropixels } => {
            crate::session::controller::destination_pixel(state, dx_micropixels, dy_micropixels)
        },
        _ => (0, 0),
    };
    let at = choose|index: int|
        crate::session::controller::is_first_covering(state.screens, px, py, index);
    assert(crate::session::controller::is_first_covering(state.screens, px, py, at));
    assert(state.screens[at].node == screen.node);
    crate::domain::arrangement::lemma_placement_exists(state.screens, screen.node);
    let target = crate::domain::arrangement::placement_of(state.screens, screen.node)->Some_0;
    let moved = focused_on(sent, target, x, y);
    let told = epoch_step(moved, peers(sent.screens, sent.local_node));
    assert(flush_step(sent) == crate::session::controller::done(sent, seq![]));
    if let Ok(announced) = told.outcome {
        assert(Seq::<ActionView>::empty() + announced =~= announced);
    }
}

/// What goes out with a new arrangement.
pub proof fn lemma_rearrangement(
    state: ControllerView,
    screens: Seq<crate::domain::arrangement::PlacementView>,
)
    requires
        state.is_valid(),
        crate::domain::arrangement::has_node(screens, state.local_node),
        flush_step(state).outcome is Ok,
    ensures
        ({
            let sent = flush_step(state).state;
            let moved = rearranged(sent, screens);
            let told = epoch_step(
                moved,
                peers(sent.screens, sent.local_node).union(peers(screens, sent.local_node)),
            );
            let whole = crate::session::controller::topology_step(state, screens);
            &&& moved.epoch == state.epoch
            &&& moved.events == sent.events
            &&& whole.state == told.state
            &&& match told.outcome {
                Ok(announced) => whole.outcome == Ok::<Seq<ActionView>, ErrorView>(
                    flush_step(state).outcome->Ok_0 + announced,
                ),
                Err(error) => whole.outcome == Err::<Seq<ActionView>, ErrorView>(error),
            }
        }),
{
    lemma_flush_keeps_validity(state);
}

/// What goes out with an activation: only the announcement, for nothing is
/// buffered while focus is at home.
pub proof fn lemma_activation(
    state: ControllerView,
    target: Seq<char>,
    x: int,
    y: int,
)
    requires
        state.is_valid(),
        state.focus == state.local_node,
        crate::domain::arrangement::placement_of(state.screens, target) is Some,
    ensures
        ({
            let screen = crate::domain::arrangement::placement_of(state.screens, target)->Some_0;
            focus_step(state, target, x, y) == epoch_step(
                focused_on(state, screen, x, y),
                peers(state.screens, state.local_node),
            )
        }),
{
    let screen = crate::domain::arrangement::placement_of(state.screens, target)->Some_0;
    let told = epoch_step(
        focused_on(state, screen, x, y),
        peers(state.screens, state.local_node),
    );
    assert(flush_step(state) == crate::session::controller::done(state, seq![]));
    if let Ok(announced) = told.outcome {
        assert(Seq::<ActionView>::empty() + announced =~= announced);
    }
}

/// A call begins a focus epoch exactly where it activates an edge, reconciles
/// with an arrangement or moves focus, and is taken. It then raises the epoch by
/// one and leaves nothing buffered; all other calls, and all that are refused,
/// leave the epoch as it is. What is announced is the epoch after the call, and
/// what input goes out is of the epoch before it.
pub proof fn law_calls_and_epochs(state: ControllerView, call: ControllerCall)
    requires
        state.is_valid(),
        is_proper(call),
    ensures
        ({
            let step = call_step(state, call);
            &&& step.state.epoch == if begins_epoch(state, call) {
                state.epoch + 1
            } else {
                state.epoch as int
            }
            &&& begins_epoch(state, call) ==> step.state.events.len() == 0
            &&& carry_epochs(actions_of(step), state.epoch, step.state.epoch)
        }),
{
    lemma_flush_keeps_validity(state);
    let flushed = flush_step(state);
    let sent = flushed.state;
    let step = call_step(state, call);
    let next = (state.epoch + 1) as u64;
    match call {
        ControllerCall::Event(ControllerEvent::Activation { edge, offset }) => {
            if state.focus == state.local_node {
                if let Some((target, (x, y))) = crate::domain::arrangement::crossing(
                    state.screens,
                    state.local_node,
                    edge,
                    offset as int,
                ) {
                    if let Some(screen) = crate::domain::arrangement::placement_of(
                        state.screens,
                        target.node,
                    ) {
                        lemma_activation(state, target.node, x, y);
                        lemma_announcements(
                            focused_on(state, screen, x, y),
                            peers(state.screens, state.local_node),
                            state.epoch,
                        );
                    }
                }
            }
        },
        ControllerCall::Event(ControllerEvent::Input(event)) => {
            if state.focus != state.local_node {
                match crossing_of(state, event) {
                    Ok(Some((screen, (x, y)))) => {
                        if flushed.outcome is Ok {
                            lemma_crossing(state, event, screen, x, y);
                            let target = crate::domain::arrangement::placement_of(
                                state.screens,
                                screen.node,
                            )->Some_0;
                            let moved = focused_on(sent, target, x, y);
                            let recipients = peers(sent.screens, sent.local_node);
                            lemma_announcements(moved, recipients, state.epoch);
                            if let Ok(announced) = epoch_step(moved, recipients).outcome {
                                lemma_epochs_add(
                                    flushed.outcome->Ok_0,
                                    announced,
                                    state.epoch,
                                    next,
                                );
                            }
                        }
                    },
                    Ok(None) => {
                        lemma_buffering(state, event);
                    },
                    Err(_) => {},
                }
            }
        },
        ControllerCall::Event(ControllerEvent::Rearrangement { screens }) => {
            if crate::domain::arrangement::has_node(screens, state.local_node)
                && flushed.outcome is Ok {
                lemma_rearrangement(state, screens);
                let moved = rearranged(sent, screens);
                let recipients = peers(sent.screens, sent.local_node).union(
                    peers(screens, sent.local_node),
                );
                lemma_announcements(moved, recipients, state.epoch);
                if let Ok(announced) = epoch_step(moved, recipients).outcome {
                    lemma_epochs_add(flushed.outcome->Ok_0, announced, state.epoch, next);
                }
            }
        },
        ControllerCall::Event(ControllerEvent::Return) => {
            lemma_announcements(
                crate::session::controller::centered(
                    ControllerView { events: seq![], ..state },
                ),
                peers(state.screens, state.local_node),
                state.epoch,
            );
        },
        _ => {},
    }
}

/// Buffering keeps focus and epoch and sends at most one batch, to the focused
/// peer: either all that was buffered before, or all that is buffered now.
pub proof fn lemma_buffering(state: ControllerView, event: InputEvent)
    requires
        state.is_valid(),
        state.focus != state.local_node,
    ensures
        ({
            let step = buffering_step(state, event);
            let full = state.events.len() >= MAX_INPUT_EVENTS_PER_BATCH
                && !crate::session::coalesce::can_take_up(state.events, event);
            let buffered = crate::session::coalesce::buffered_with(state.events, event);
            &&& step.state.epoch == state.epoch
            &&& step.state.focus == state.focus
            &&& step.state.local_node == state.local_node
            &&& step.state.screens == state.screens
            &&& step.outcome is Err ==> step.state.deliveries == state.deliveries
            &&& step.outcome matches Ok(actions) ==> {
                if full {
                    &&& step.state.events == seq![event]
                    &&& is_batch_of(state, state.events, actions)
                    &&& is_counted(state, step.state)
                } else if buffered.len() >= MAX_INPUT_EVENTS_PER_BATCH {
                    &&& step.state.events.len() == 0
                    &&& is_batch_of(state, buffered, actions)
                    &&& is_counted(state, step.state)
                } else {
                    &&& step.state.events == buffered
                    &&& actions.len() == 0
                    &&& step.state.deliveries == state.deliveries
                }
            }
        }),
{
    lemma_flush_keeps_validity(state);
    let full = state.events.len() >= MAX_INPUT_EVENTS_PER_BATCH
        && !crate::session::coalesce::can_take_up(state.events, event);
    if full {
        let sent = flush_step(state).state;
        if let Ok(first) = flush_step(state).outcome {
            assert(first + Seq::<ActionView>::empty() =~= first);
            assert(crate::session::coalesce::buffered_with(sent.events, event) =~= seq![event]);
        }
    } else {
        let moved = crate::session::controller::observed(state, event);
        let next = ControllerView {
            events: crate::session::coalesce::buffered_with(state.events, event),
            ..moved
        };
        if next.events.len() >= MAX_INPUT_EVENTS_PER_BATCH {
            if let Ok(second) = flush_step(next).outcome {
                assert(Seq::<ActionView>::empty() + second =~= second);
            }
        } else {
            assert(Seq::<ActionView>::empty() + Seq::<ActionView>::empty() =~= Seq::<
                ActionView,
            >::empty());
        }
    }
}

/// The actions are one batch of these events for the focused peer, with the next
/// number.
pub open spec fn is_batch_of(
    state: ControllerView,
    events: Seq<InputEvent>,
    actions: Seq<ActionView>,
) -> bool {
    actions == seq![
        ActionView::Send {
            peer: state.focus,
            message: crate::protocol::message::SessionView::Input(
                crate::protocol::message::BatchView {
                    focus_epoch: state.epoch,
                    sequence: (state.deliveries[state.focus].last_sent + 1) as u64,
                    events,
                },
            ),
        },
    ]
}

/// One more batch counts as sent to the focused peer, and nothing else changed
/// in the deliveries.
pub open spec fn is_counted(state: ControllerView, next: ControllerView) -> bool {
    let old = state.deliveries[state.focus];
    &&& old.last_sent < u64::MAX
    &&& state.deliveries.dom().contains(state.focus)
    &&& next.deliveries == state.deliveries.insert(
        state.focus,
        crate::session::delivery::DeliveryView {
            last_sent: (old.last_sent + 1) as u64,
            ..old
        },
    )
}

/// The number of focus epochs that `calls` begin.
pub open spec fn epochs_begun(start: ControllerView, calls: Seq<ControllerCall>) -> int
    decreases calls.len(),
{
    if calls.len() == 0 {
        0
    } else {
        let earlier = epochs_begun(start, calls.drop_last());
        if begins_epoch(after(start, calls.drop_last()), calls.last()) {
            earlier + 1
        } else {
            earlier
        }
    }
}

/// The call at `index` raises the epoch by one where it begins one, and leaves it
/// otherwise; as long as the epochs have not run out, focus moves in no other
/// way. What the call announces is the epoch after it, and the input that it sends
/// is of the epoch before it.
pub open spec fn keeps_epochs_apart(
    start: ControllerView,
    calls: Seq<ControllerCall>,
    index: int,
) -> bool {
    let state = before(start, calls, index);
    let step = step_at(start, calls, index);
    &&& step.state.epoch == if begins_epoch(state, calls[index]) {
        state.epoch + 1
    } else {
        state.epoch as int
    }
    &&& state.epoch < u64::MAX && step.state.focus != state.focus ==> begins_epoch(
        state,
        calls[index],
    )
    &&& carry_epochs(actions_of(step), state.epoch, step.state.epoch)
}

/// Nothing was buffered before the call at `index`, and the epoch has stayed the
/// same since.
pub open spec fn is_buffered_since(
    start: ControllerView,
    calls: Seq<ControllerCall>,
    index: int,
) -> bool {
    &&& 0 <= index <= calls.len()
    &&& before(start, calls, index).events.len() == 0
    &&& forall|later: int|
        index <= later <= calls.len() ==> (#[trigger] before(start, calls, later)).epoch == after(
            start,
            calls,
        ).epoch
}

proof fn lemma_buffered_since(start: ControllerView, calls: Seq<ControllerCall>) -> (index: int)
    requires
        start.is_valid(),
        start.events.len() == 0,
        are_proper(calls),
    ensures
        is_buffered_since(start, calls, index),
    decreases calls.len(),
{
    assert(calls.take(calls.len() as int) =~= calls);
    if calls.len() == 0 {
        0
    } else {
        let shorter = calls.drop_last();
        let state = after(start, shorter);
        lemma_shorter_run(start, calls);
        lemma_run_is_valid(start, shorter);
        law_calls_and_epochs(state, calls.last());
        if begins_epoch(state, calls.last()) {
            calls.len() as int
        } else {
            let index = lemma_buffered_since(start, shorter);
            assert(before(start, calls, index) == before(start, shorter, index));
            assert forall|later: int| index <= later <= calls.len() implies (#[trigger] before(
                start,
                calls,
                later,
            )).epoch == after(start, calls).epoch by {
                if later < calls.len() {
                    assert(before(start, shorter, later).epoch == state.epoch);
                }
            }
            index
        }
    }
}

proof fn lemma_epochs_counted(start: ControllerView, calls: Seq<ControllerCall>)
    requires
        start.is_valid(),
        are_proper(calls),
    ensures
        after(start, calls).epoch == start.epoch + epochs_begun(start, calls),
    decreases calls.len(),
{
    if calls.len() > 0 {
        lemma_shorter_run(start, calls);
        lemma_run_is_valid(start, calls.drop_last());
        lemma_epochs_counted(start, calls.drop_last());
        law_calls_and_epochs(after(start, calls.drop_last()), calls.last());
    }
}

proof fn lemma_prefix_is_proper(calls: Seq<ControllerCall>, index: int)
    requires
        are_proper(calls),
        0 <= index <= calls.len(),
    ensures
        are_proper(calls.take(index)),
{
    assert forall|i: int| 0 <= i < index implies is_proper(#[trigger] calls.take(index)[i]) by {
        assert(is_proper(calls[i]));
    }
}

/// However a controller is used, its focus epoch is 1 at first and counts the
/// calls that were taken and activated an edge, reconciled with an arrangement
/// or moved focus. All other calls, and all that are refused, leave it. Each
/// announcement of focus carries the epoch after its call and each batch of input
/// the epoch before it, and under that epoch its events were routed: since
/// nothing was buffered the epoch has been the same.
pub proof fn law_focus_epochs_count_the_changes_of_focus(
    screens: Seq<crate::domain::arrangement::PlacementView>,
    local_node: Seq<char>,
    calls: Seq<ControllerCall>,
)
    requires
        crate::domain::arrangement::is_arrangement(screens),
        crate::domain::arrangement::has_node(screens, local_node),
        are_proper(calls),
    ensures
        ({
            let start = initial(screens, local_node);
            &&& start.epoch == 1
            &&& after(start, calls).epoch == 1 + epochs_begun(start, calls)
            &&& forall|index: int|
                0 <= index < calls.len() ==> #[trigger] keeps_epochs_apart(start, calls, index)
            &&& exists|index: int| #[trigger] is_buffered_since(start, calls, index)
        }),
{
    let start = initial(screens, local_node);
    law_controllers_start_afresh(screens, local_node);
    lemma_epochs_counted(start, calls);
    assert forall|index: int| 0 <= index < calls.len() implies #[trigger] keeps_epochs_apart(
        start,
        calls,
        index,
    ) by {
        lemma_prefix_is_proper(calls, index);
        lemma_run_is_valid(start, calls.take(index));
        assert(is_proper(calls[index]));
        let state = before(start, calls, index);
        law_calls_and_epochs(state, calls[index]);
        if state.epoch < u64::MAX && step_at(start, calls, index).outcome is Err {
            law_refused_calls_leave_epoch_focus_and_deliveries(state, calls[index]);
        }
    }
    let index = lemma_buffered_since(start, calls);
    assert(is_buffered_since(start, calls, index));
}

/// The calls that route these events.
pub open spec fn routing(events: Seq<InputEvent>) -> Seq<ControllerCall> {
    events.map_values(|event: InputEvent| ControllerCall::Event(ControllerEvent::Input(event)))
}

/// The event at `index` is routed without moving focus.
pub open spec fn is_routed_in_place(
    start: ControllerView,
    events: Seq<InputEvent>,
    index: int,
) -> bool {
    let step = step_at(start, routing(events), index);
    step.outcome is Ok && step.state.focus == before(start, routing(events), index).focus
}

/// The events of all batches in a series of actions, one after the other.
pub open spec fn sent_events(actions: Seq<ActionView>) -> Seq<InputEvent>
    decreases actions.len(),
{
    if actions.len() == 0 {
        Seq::empty()
    } else {
        let earlier = sent_events(actions.drop_last());
        match batch_of(actions.last()) {
            Some(batch) => earlier + batch.events,
            None => earlier,
        }
    }
}

/// The action sends `peer` a batch of input of this epoch, neither empty nor too
/// long.
pub open spec fn is_sound_batch(action: ActionView, peer: Seq<char>, epoch: u64) -> bool {
    action matches ActionView::Send { peer: receiver, message } && receiver == peer && (
    message matches crate::protocol::message::SessionView::Input(batch) && batch.focus_epoch
        == epoch && 0 < batch.events.len() <= MAX_INPUT_EVENTS_PER_BATCH)
}

pub open spec fn are_sound_batches(
    actions: Seq<ActionView>,
    peer: Seq<char>,
    epoch: u64,
) -> bool {
    forall|i: int| 0 <= i < actions.len() ==> is_sound_batch(#[trigger] actions[i], peer, epoch)
}

proof fn lemma_sent_events_add(a: Seq<ActionView>, b: Seq<ActionView>)
    ensures
        sent_events(a + b) == sent_events(a) + sent_events(b),
    decreases b.len(),
{
    if b.len() == 0 {
        assert(a + b =~= a);
        assert(sent_events(a) + Seq::<InputEvent>::empty() =~= sent_events(a));
    } else {
        lemma_sent_events_add(a, b.drop_last());
        assert((a + b).drop_last() =~= a + b.drop_last());
        assert((a + b).last() == b.last());
        assert(sent_events(a + b) =~= sent_events(a) + sent_events(b));
    }
}

proof fn lemma_sound_batches_add(
    a: Seq<ActionView>,
    b: Seq<ActionView>,
    peer: Seq<char>,
    epoch: u64,
)
    requires
        are_sound_batches(a, peer, epoch),
        are_sound_batches(b, peer, epoch),
    ensures
        are_sound_batches(a + b, peer, epoch),
{
    assert forall|i: int| 0 <= i < (a + b).len() implies is_sound_batch(
        #[trigger] (a + b)[i],
        peer,
        epoch,
    ) by {
        if i < a.len() {
            assert(is_sound_batch(a[i], peer, epoch));
        } else {
            assert(is_sound_batch(b[i - a.len()], peer, epoch));
        }
    }
}

proof fn lemma_sent_by_batch(
    state: ControllerView,
    events: Seq<InputEvent>,
    actions: Seq<ActionView>,
)
    requires
        is_batch_of(state, events, actions),
        0 < events.len() <= MAX_INPUT_EVENTS_PER_BATCH,
    ensures
        sent_events(actions) == events,
        are_sound_batches(actions, state.focus, state.epoch),
{
    reveal_with_fuel(sent_events, 2);
    assert(actions.drop_last() =~= Seq::<ActionView>::empty());
    assert(Seq::<InputEvent>::empty() + events =~= events);
}

/// Routing an event in place buffers it: what was sent and what waits stand for
/// all that was routed, as before.
pub proof fn lemma_routed_in_place(state: ControllerView, event: InputEvent, sent: Seq<InputEvent>)
    requires
        state.is_valid(),
        state.focus != state.local_node,
        crate::session::controller::input_step(state, event).outcome is Ok,
        crate::session::controller::input_step(state, event).state.focus == state.focus,
    ensures
        ({
            let step = crate::session::controller::input_step(state, event);
            let actions = step.outcome->Ok_0;
            let earlier = sent + state.events;
            let later = sent + sent_events(actions) + step.state.events;
            &&& step.state.epoch == state.epoch
            &&& step.state.local_node == state.local_node
            &&& are_sound_batches(actions, state.focus, state.epoch)
            &&& later == earlier.push(event) || later
                == crate::session::coalesce::buffered_with(earlier, event)
        }),
{
    let step = crate::session::controller::input_step(state, event);
    let actions = step.outcome->Ok_0;
    if let Ok(Some((screen, (x, y)))) = crossing_of(state, event) {
        if flush_step(state).outcome is Ok {
            lemma_crossing(state, event, screen, x, y);
        }
    }
    assert(step == buffering_step(state, event));
    lemma_buffering(state, event);
    let full = state.events.len() >= MAX_INPUT_EVENTS_PER_BATCH
        && !crate::session::coalesce::can_take_up(state.events, event);
    let buffered = crate::session::coalesce::buffered_with(state.events, event);
    let earlier = sent + state.events;
    let later = sent + sent_events(actions) + step.state.events;
    if full {
        lemma_sent_by_batch(state, state.events, actions);
        assert(later =~= earlier.push(event));
    } else {
        if buffered.len() >= MAX_INPUT_EVENTS_PER_BATCH {
            lemma_sent_by_batch(state, buffered, actions);
        }
        assert(later =~= sent + buffered);
        if state.events.len() == 0 {
            assert(later =~= earlier.push(event));
        } else {
            assert(earlier.last() == state.events.last());
            assert(later =~= crate::session::coalesce::buffered_with(earlier, event));
        }
    }
}

proof fn lemma_shorter_routing(start: ControllerView, events: Seq<InputEvent>)
    requires
        events.len() > 0,
        forall|i: int| 0 <= i < events.len() ==> #[trigger] is_routed_in_place(start, events, i),
    ensures
        routing(events).drop_last() == routing(events.drop_last()),
        routing(events).last() == ControllerCall::Event(ControllerEvent::Input(events.last())),
        forall|i: int|
            0 <= i < events.len() - 1 ==> #[trigger] is_routed_in_place(
                start,
                events.drop_last(),
                i,
            ),
        is_routed_in_place(start, events, events.len() - 1),
        before(start, routing(events), events.len() - 1) == after(
            start,
            routing(events.drop_last()),
        ),
{
    let shorter = events.drop_last();
    assert(routing(events).drop_last() =~= routing(shorter));
    assert(routing(events).take(events.len() - 1) =~= routing(shorter));
    assert forall|i: int| 0 <= i < events.len() - 1 implies #[trigger] is_routed_in_place(
        start,
        shorter,
        i,
    ) by {
        assert(is_routed_in_place(start, events, i));
        assert(routing(shorter).take(i) =~= routing(events).take(i));
    }
}

proof fn lemma_routing(start: ControllerView, events: Seq<InputEvent>) -> (cuts: Seq<int>)
    requires
        start.is_valid(),
        start.focus != start.local_node,
        start.events.len() == 0,
        forall|i: int| 0 <= i < events.len() ==> #[trigger] is_routed_in_place(start, events, i),
    ensures
        ({
            let state = after(start, routing(events));
            let actions = returned(start, routing(events));
            &&& state.is_valid()
            &&& state.focus == start.focus
            &&& state.local_node == start.local_node
            &&& state.epoch == start.epoch
            &&& are_sound_batches(actions, start.focus, start.epoch)
            &&& crate::session::grouping::is_grouping(
                events,
                sent_events(actions) + state.events,
                cuts,
            )
        }),
    decreases events.len(),
{
    let calls = routing(events);
    let state = after(start, calls);
    let actions = returned(start, calls);
    if events.len() == 0 {
        assert(sent_events(actions) + state.events =~= Seq::<InputEvent>::empty());
        seq![0int]
    } else {
        let shorter = events.drop_last();
        let event = events.last();
        lemma_shorter_routing(start, events);
        let cuts = lemma_routing(start, shorter);
        let earlier = after(start, routing(shorter));
        let past = returned(start, routing(shorter));
        assert(routing(events)[events.len() - 1] == routing(events).last());
        assert(is_routed_in_place(start, events, events.len() - 1));
        let step = crate::session::controller::input_step(earlier, event);
        assert(step_at(start, calls, events.len() - 1) == step);
        lemma_routed_in_place(earlier, event, sent_events(past));
        law_controller_states_stay_valid(earlier, ControllerEvent::Input(event));
        lemma_sent_events_add(past, step.outcome->Ok_0);
        lemma_sound_batches_add(past, step.outcome->Ok_0, start.focus, start.epoch);
        assert(events =~= shorter.push(event));
        let sent = sent_events(past) + earlier.events;
        if sent_events(actions) + state.events == sent.push(event) {
            crate::session::grouping::lemma_grouping_with_own(shorter, sent, cuts, event);
            cuts.push((shorter.len() + 1) as int)
        } else {
            crate::session::grouping::lemma_grouping_with_buffered(shorter, sent, cuts, event)
        }
    }
}

/// Where nothing is buffered and a remote node has focus, and events are routed
/// without moving focus and then flushed, the batches that go out stand for the
/// events: each event that is sent is one of them, or takes up motion of one
/// manner that followed directly on one another. So each key, button and scroll
/// event goes out once, unchanged and in order, and no motion moves past one. The
/// distances add up as captured, unless some motion is more than one event can
/// hold. Every batch goes to the focused node under the epoch of the time, holds
/// at least one event and no more than the limit, and nothing is left behind.
pub proof fn law_routed_input_goes_out_whole(start: ControllerView, events: Seq<InputEvent>)
    requires
        start.is_valid(),
        start.focus != start.local_node,
        start.events.len() == 0,
        forall|i: int| 0 <= i < events.len() ==> #[trigger] is_routed_in_place(start, events, i),
        flush_step(after(start, routing(events))).outcome is Ok,
    ensures
        ({
            let calls = routing(events).push(ControllerCall::Event(ControllerEvent::Flush));
            let actions = returned(start, calls);
            let sent = sent_events(actions);
            &&& exists|cuts: Seq<int>| #[trigger]
                crate::session::grouping::is_grouping(events, sent, cuts) && (
                crate::session::grouping::groups_never_saturate(events, cuts)
                    ==> crate::session::coalesce::total_motion(sent)
                    == crate::session::coalesce::total_motion(events))
            &&& crate::session::coalesce::without_motion(sent)
                == crate::session::coalesce::without_motion(events)
            &&& are_sound_batches(actions, start.focus, start.epoch)
            &&& after(start, calls).events.len() == 0
        }),
{
    let cuts = lemma_routing(start, events);
    let state = after(start, routing(events));
    let past = returned(start, routing(events));
    let calls = routing(events).push(ControllerCall::Event(ControllerEvent::Flush));
    let flushed = flush_step(state).outcome->Ok_0;
    let actions = returned(start, calls);
    assert(calls.drop_last() =~= routing(events));
    assert(actions == past + flushed);
    lemma_sent_events_add(past, flushed);
    if state.events.len() == 0 {
        assert(sent_events(flushed) =~= state.events);
    } else {
        lemma_sent_by_batch(state, state.events, flushed);
    }
    lemma_sound_batches_add(past, flushed, start.focus, start.epoch);
    let sent = sent_events(actions);
    assert(sent =~= sent_events(past) + state.events);
    crate::session::grouping::law_groupings_keep_transitions_and_motion(events, sent, cuts);
}

/// The batches for `peer` in a series of actions.
pub open spec fn batches_for(actions: Seq<ActionView>, peer: Seq<char>) -> Seq<
    crate::protocol::message::BatchView,
>
    decreases actions.len(),
{
    if actions.len() == 0 {
        Seq::empty()
    } else {
        let earlier = batches_for(actions.drop_last(), peer);
        match actions.last() {
            ActionView::Send {
                peer: receiver,
                message: crate::protocol::message::SessionView::Input(batch),
            } => if receiver == peer {
                earlier.push(batch)
            } else {
                earlier
            },
            _ => earlier,
        }
    }
}

/// The highest sequence that was accepted as acknowledged by `peer`.
pub open spec fn highest_accepted(
    start: ControllerView,
    calls: Seq<ControllerCall>,
    peer: Seq<char>,
) -> u64
    decreases calls.len(),
{
    if calls.len() == 0 {
        0
    } else {
        let earlier = highest_accepted(start, calls.drop_last(), peer);
        match calls.last() {
            ControllerCall::Acknowledge { peer: sender, through_sequence } => {
                if sender == peer && through_sequence > earlier && call_step(
                    after(start, calls.drop_last()),
                    calls.last(),
                ).outcome is Ok {
                    through_sequence
                } else {
                    earlier
                }
            },
            _ => earlier,
        }
    }
}

/// `peer` is a remote node of the arrangement before the call at `index`.
pub open spec fn is_peer_before(
    start: ControllerView,
    calls: Seq<ControllerCall>,
    index: int,
    peer: Seq<char>,
) -> bool {
    let state = before(start, calls, index);
    is_peer(state.screens, state.local_node, peer)
}

/// `peer` stays a remote node of the arrangement.
pub open spec fn stays_peer(
    start: ControllerView,
    calls: Seq<ControllerCall>,
    peer: Seq<char>,
) -> bool {
    forall|index: int|
        0 <= index <= calls.len() ==> #[trigger] is_peer_before(start, calls, index, peer)
}

/// The call is refused after a batch for `peer` was counted as sent.
pub open spec fn loses_batch(
    state: ControllerView,
    call: ControllerCall,
    peer: Seq<char>,
) -> bool {
    &&& call_step(state, call).outcome is Err
    &&& call_step(state, call).state.deliveries[peer] != state.deliveries[peer]
}

/// The call at `index` neither starts the delivery to `peer` afresh nor loses a
/// batch for it.
pub open spec fn keeps_delivery(
    start: ControllerView,
    calls: Seq<ControllerCall>,
    index: int,
    peer: Seq<char>,
) -> bool {
    &&& calls[index] != (ControllerCall::Reset { peer })
    &&& !loses_batch(before(start, calls, index), calls[index], peer)
}

/// A call that is refused leaves epoch, focus and deliveries as they are, unless
/// the focus epochs have run out.
pub proof fn law_refused_calls_leave_epoch_focus_and_deliveries(
    state: ControllerView,
    call: ControllerCall,
)
    requires
        state.is_valid(),
        is_proper(call),
        state.epoch < u64::MAX,
        call_step(state, call).outcome is Err,
    ensures
        call_step(state, call).state.epoch == state.epoch,
        call_step(state, call).state.focus == state.focus,
        call_step(state, call).state.deliveries == state.deliveries,
{
    lemma_flush_keeps_validity(state);
    let flushed = flush_step(state);
    let sent = flushed.state;
    match call {
        ControllerCall::Event(ControllerEvent::Input(event)) => {
            if state.focus != state.local_node {
                match crossing_of(state, event) {
                    Ok(Some((screen, (x, y)))) => {
                        if flushed.outcome is Ok {
                            lemma_crossing(state, event, screen, x, y);
                        }
                    },
                    Ok(None) => {
                        lemma_buffering(state, event);
                    },
                    Err(_) => {},
                }
            }
        },
        ControllerCall::Event(ControllerEvent::Rearrangement { screens }) => {
            if crate::domain::arrangement::has_node(screens, state.local_node)
                && flushed.outcome is Ok {
                lemma_rearrangement(state, screens);
            }
        },
        _ => {},
    }
}

proof fn lemma_batches_add(a: Seq<ActionView>, b: Seq<ActionView>, peer: Seq<char>)
    ensures
        batches_for(a + b, peer) == batches_for(a, peer) + batches_for(b, peer),
    decreases b.len(),
{
    if b.len() == 0 {
        assert(a + b =~= a);
        assert(batches_for(a, peer) + batches_for(b, peer) =~= batches_for(a, peer));
    } else {
        lemma_batches_add(a, b.drop_last(), peer);
        assert((a + b).drop_last() =~= a + b.drop_last());
        assert((a + b).last() == b.last());
        assert(batches_for(a + b, peer) =~= batches_for(a, peer) + batches_for(b, peer));
    }
}

proof fn lemma_plain_actions(actions: Seq<ActionView>, peer: Seq<char>)
    requires
        is_plain(actions),
    ensures
        batches_for(actions, peer) == Seq::<crate::protocol::message::BatchView>::empty(),
    decreases actions.len(),
{
    if actions.len() > 0 {
        let rest = actions.drop_last();
        assert forall|i: int| 0 <= i < rest.len() implies batch_of(#[trigger] rest[i]) is None by {
            assert(rest[i] == actions[i]);
        }
        lemma_plain_actions(rest, peer);
        assert(batch_of(actions[actions.len() - 1]) is None);
    }
}

/// Between two states nothing was sent to `peer`, or the batch with the next
/// number.
spec fn is_sent_between(
    old: crate::session::delivery::DeliveryView,
    new: crate::session::delivery::DeliveryView,
    batches: Seq<crate::protocol::message::BatchView>,
) -> bool {
    &&& new.last_acknowledged == old.last_acknowledged
    &&& {
        ||| new.last_sent == old.last_sent && batches.len() == 0
        ||| new.last_sent == old.last_sent + 1 && batches.len() == 1 && batches[0].sequence
            == new.last_sent
    }
}

proof fn lemma_batch_is_sent(
    state: ControllerView,
    next: ControllerView,
    events: Seq<InputEvent>,
    actions: Seq<ActionView>,
    peer: Seq<char>,
)
    requires
        is_batch_of(state, events, actions),
        is_counted(state, next),
        state.deliveries.dom().contains(peer),
    ensures
        is_sent_between(state.deliveries[peer], next.deliveries[peer], batches_for(actions, peer)),
{
    reveal_with_fuel(batches_for, 2);
    assert(actions.drop_last() =~= Seq::<ActionView>::empty());
}

proof fn lemma_flush_is_sent(state: ControllerView, peer: Seq<char>)
    requires
        state.is_valid(),
        state.deliveries.dom().contains(peer),
    ensures
        is_sent_between(
            state.deliveries[peer],
            flush_step(state).state.deliveries[peer],
            batches_for(actions_of(flush_step(state)), peer),
        ),
{
    if state.events.len() > 0 {
        if let Ok(actions) = flush_step(state).outcome {
            lemma_batch_is_sent(state, flush_step(state).state, state.events, actions, peer);
        }
    }
}

/// What a flush followed by an announcement sends.
proof fn lemma_announced_after(
    first: Seq<ActionView>,
    moved: ControllerView,
    recipients: Set<Seq<char>>,
    peer: Seq<char>,
)
    ensures
        epoch_step(moved, recipients).outcome matches Ok(announced) ==> batches_for(
            first + announced,
            peer,
        ) == batches_for(first, peer),
{
    lemma_announcements(moved, recipients, 0);
    if let Ok(announced) = epoch_step(moved, recipients).outcome {
        lemma_plain_actions(announced, peer);
        lemma_batches_add(first, announced, peer);
        assert(batches_for(first, peer) + batches_for(announced, peer) =~= batches_for(
            first,
            peer,
        ));
    }
}

/// What a call that is neither a reset nor loses a batch does to a delivery.
proof fn lemma_call_delivery(state: ControllerView, call: ControllerCall, peer: Seq<char>)
    requires
        state.is_valid(),
        is_proper(call),
        state.deliveries.dom().contains(peer),
        call_step(state, call).state.deliveries.dom().contains(peer),
        call != (ControllerCall::Reset { peer }),
        !loses_batch(state, call, peer),
    ensures
        ({
            let step = call_step(state, call);
            let old = state.deliveries[peer];
            let new = step.state.deliveries[peer];
            let batches = batches_for(actions_of(step), peer);
            match call {
                ControllerCall::Acknowledge { peer: sender, through_sequence } => {
                    &&& new.last_sent == old.last_sent
                    &&& batches.len() == 0
                    &&& new.last_acknowledged == if sender == peer && step.outcome is Ok
                        && through_sequence > old.last_acknowledged {
                        through_sequence
                    } else {
                        old.last_acknowledged
                    }
                },
                _ => is_sent_between(old, new, batches),
            }
        }),
{
    lemma_flush_keeps_validity(state);
    let flushed = flush_step(state);
    let sent = flushed.state;
    let none = Seq::<ActionView>::empty();
    lemma_flush_is_sent(state, peer);
    match call {
        ControllerCall::Event(ControllerEvent::Activation { edge, offset }) => {
            if state.focus == state.local_node {
                if let Some((target, (x, y))) = crate::domain::arrangement::crossing(
                    state.screens,
                    state.local_node,
                    edge,
                    offset as int,
                ) {
                    if let Some(screen) = crate::domain::arrangement::placement_of(
                        state.screens,
                        target.node,
                    ) {
                        lemma_activation(state, target.node, x, y);
                        let moved = focused_on(state, screen, x, y);
                        let recipients = peers(state.screens, state.local_node);
                        lemma_announced_after(none, moved, recipients, peer);
                        if let Ok(announced) = epoch_step(moved, recipients).outcome {
                            assert(none + announced =~= announced);
                        }
                    }
                }
            }
        },
        ControllerCall::Event(ControllerEvent::Input(event)) => {
            if state.focus != state.local_node {
                match crossing_of(state, event) {
                    Ok(Some((screen, (x, y)))) => {
                        if let Ok(first) = flushed.outcome {
                            lemma_crossing(state, event, screen, x, y);
                            let target = crate::domain::arrangement::placement_of(
                                state.screens,
                                screen.node,
                            )->Some_0;
                            lemma_announced_after(
                                first,
                                focused_on(sent, target, x, y),
                                peers(sent.screens, sent.local_node),
                                peer,
                            );
                        }
                    },
                    Ok(None) => {
                        lemma_buffering(state, event);
                        let step = buffering_step(state, event);
                        let full = state.events.len() >= MAX_INPUT_EVENTS_PER_BATCH
                            && !crate::session::coalesce::can_take_up(state.events, event);
                        let buffered = crate::session::coalesce::buffered_with(
                            state.events,
                            event,
                        );
                        if let Ok(actions) = step.outcome {
                            if full {
                                lemma_batch_is_sent(
                                    state,
                                    step.state,
                                    state.events,
                                    actions,
                                    peer,
                                );
                            } else if buffered.len() >= MAX_INPUT_EVENTS_PER_BATCH {
                                lemma_batch_is_sent(state, step.state, buffered, actions, peer);
                            }
                        }
                    },
                    Err(_) => {},
                }
            }
        },
        ControllerCall::Event(ControllerEvent::Rearrangement { screens }) => {
            if crate::domain::arrangement::has_node(screens, state.local_node) {
                if let Ok(first) = flushed.outcome {
                    lemma_rearrangement(state, screens);
                    lemma_announced_after(
                        first,
                        rearranged(sent, screens),
                        peers(sent.screens, sent.local_node).union(
                            peers(screens, sent.local_node),
                        ),
                        peer,
                    );
                }
            }
        },
        ControllerCall::Event(ControllerEvent::Return) => {
            if state.focus != state.local_node {
                let home = crate::session::controller::centered(
                    ControllerView { events: seq![], ..state },
                );
                let recipients = peers(state.screens, state.local_node);
                lemma_announced_after(none, home, recipients, peer);
                if let Ok(announced) = epoch_step(home, recipients).outcome {
                    assert(none + announced =~= announced);
                }
            }
        },
        _ => {},
    }
}

proof fn lemma_shorter_delivery(
    start: ControllerView,
    calls: Seq<ControllerCall>,
    peer: Seq<char>,
)
    requires
        calls.len() > 0,
        are_proper(calls),
        stays_peer(start, calls, peer),
        forall|i: int| 0 <= i < calls.len() ==> #[trigger] keeps_delivery(start, calls, i, peer),
    ensures
        stays_peer(start, calls.drop_last(), peer),
        forall|i: int|
            0 <= i < calls.len() - 1 ==> #[trigger] keeps_delivery(
                start,
                calls.drop_last(),
                i,
                peer,
            ),
        keeps_delivery(start, calls, calls.len() - 1, peer),
        is_peer_before(start, calls, calls.len() - 1, peer),
        is_peer_before(start, calls, calls.len() as int, peer),
{
    let shorter = calls.drop_last();
    lemma_shorter_run(start, calls);
    assert forall|index: int| 0 <= index <= shorter.len() implies #[trigger] is_peer_before(
        start,
        shorter,
        index,
        peer,
    ) by {
        assert(is_peer_before(start, calls, index, peer));
        assert(before(start, calls, index) == before(start, shorter, index));
    }
    assert forall|i: int| 0 <= i < calls.len() - 1 implies #[trigger] keeps_delivery(
        start,
        shorter,
        i,
        peer,
    ) by {
        assert(keeps_delivery(start, calls, i, peer));
        assert(before(start, calls, i) == before(start, shorter, i));
        assert(shorter[i] == calls[i]);
    }
}

/// The batches are numbered 1, 2, 3 and so on.
pub open spec fn are_numbered(batches: Seq<crate::protocol::message::BatchView>) -> bool {
    forall|i: int| 0 <= i < batches.len() ==> (#[trigger] batches[i]).sequence == i + 1
}

proof fn lemma_delivery(start: ControllerView, calls: Seq<ControllerCall>, peer: Seq<char>)
    requires
        start.is_valid(),
        start.deliveries[peer] == crate::session::delivery::DeliveryView::fresh(),
        are_proper(calls),
        stays_peer(start, calls, peer),
        forall|i: int| 0 <= i < calls.len() ==> #[trigger] keeps_delivery(start, calls, i, peer),
    ensures
        ({
            let state = after(start, calls);
            let batches = batches_for(returned(start, calls), peer);
            &&& state.deliveries.dom().contains(peer)
            &&& state.deliveries[peer].last_sent == batches.len()
            &&& state.deliveries[peer].last_acknowledged == highest_accepted(start, calls, peer)
            &&& are_numbered(batches)
        }),
    decreases calls.len(),
{
    assert(calls.take(calls.len() as int) =~= calls);
    assert(is_peer_before(start, calls, calls.len() as int, peer));
    lemma_run_is_valid(start, calls);
    if calls.len() > 0 {
        let shorter = calls.drop_last();
        let state = after(start, shorter);
        let step = call_step(state, calls.last());
        lemma_shorter_run(start, calls);
        lemma_shorter_delivery(start, calls, peer);
        lemma_run_is_valid(start, shorter);
        lemma_delivery(start, shorter, peer);
        assert(calls[calls.len() - 1] == calls.last());
        lemma_call_delivery(state, calls.last(), peer);
        let earlier = batches_for(returned(start, shorter), peer);
        let more = batches_for(actions_of(step), peer);
        lemma_batches_add(returned(start, shorter), actions_of(step), peer);
        let batches = batches_for(returned(start, calls), peer);
        assert(batches == earlier + more);
        assert forall|i: int| 0 <= i < batches.len() implies (#[trigger] batches[i]).sequence == i
            + 1 by {
            if i < earlier.len() {
                assert(batches[i] == earlier[i]);
            } else {
                assert(batches[i] == more[i - earlier.len()]);
            }
        }
    }
}

/// Of batches numbered in order, as many exceed a number as come behind it.
proof fn lemma_count_behind(batches: Seq<crate::protocol::message::BatchView>, through: u64)
    requires
        are_numbered(batches),
        through <= batches.len(),
    ensures
        unacknowledged(batches, through).len() == batches.len() - through,
    decreases batches.len(),
{
    reveal(Seq::filter);
    if batches.len() > 0 {
        let rest = batches.drop_last();
        assert forall|i: int| 0 <= i < rest.len() implies (#[trigger] rest[i]).sequence == i
            + 1 by {
            assert(rest[i] == batches[i]);
        }
        assert(batches[batches.len() - 1].sequence == batches.len());
        if through < batches.len() {
            lemma_count_behind(rest, through);
        } else {
            lemma_none_behind(batches, through);
        }
    }
}

proof fn lemma_none_behind(batches: Seq<crate::protocol::message::BatchView>, through: u64)
    requires
        are_numbered(batches),
        through >= batches.len(),
    ensures
        unacknowledged(batches, through).len() == 0,
    decreases batches.len(),
{
    reveal(Seq::filter);
    if batches.len() > 0 {
        let rest = batches.drop_last();
        assert forall|i: int| 0 <= i < rest.len() implies (#[trigger] rest[i]).sequence == i
            + 1 by {
            assert(rest[i] == batches[i]);
        }
        lemma_none_behind(rest, through);
        assert(batches[batches.len() - 1].sequence == batches.len());
    }
}

/// The batches behind the sequence `through`.
pub open spec fn unacknowledged(
    batches: Seq<crate::protocol::message::BatchView>,
    through: u64,
) -> Seq<crate::protocol::message::BatchView> {
    batches.filter(|batch: crate::protocol::message::BatchView| batch.sequence > through)
}

/// However a controller is used from the time that the delivery to a peer starts
/// afresh, as long as the peer stays in the arrangement: the batches returned for
/// it are numbered 1, 2, 3 and so on, whatever epochs they belong to. Those behind
/// the highest acknowledgement that was accepted are pending, and never more than
/// the limit. With as many pending, the next batch is refused for backpressure and
/// what is buffered is kept.
pub proof fn law_pending_batches_are_those_not_acknowledged(
    start: ControllerView,
    calls: Seq<ControllerCall>,
    peer: Seq<char>,
)
    requires
        start.is_valid(),
        start.deliveries[peer] == crate::session::delivery::DeliveryView::fresh(),
        are_proper(calls),
        stays_peer(start, calls, peer),
        forall|i: int| 0 <= i < calls.len() ==> #[trigger] keeps_delivery(start, calls, i, peer),
    ensures
        ({
            let state = after(start, calls);
            let batches = batches_for(returned(start, calls), peer);
            &&& are_numbered(batches)
            &&& pending_of(state, peer) == unacknowledged(
                batches,
                highest_accepted(start, calls, peer),
            ).len()
            &&& pending_of(state, peer) <= MAX_PENDING_BATCHES_PER_PEER
            &&& pending_of(state, peer) == MAX_PENDING_BATCHES_PER_PEER && state.focus == peer
                && state.events.len() > 0 ==> flush_step(state)
                == crate::session::controller::refused(
                state,
                ErrorView::Backpressure { peer, maximum: MAX_PENDING_BATCHES_PER_PEER },
            )
        }),
{
    let state = after(start, calls);
    lemma_run_is_valid(start, calls);
    lemma_delivery(start, calls, peer);
    lemma_count_behind(
        batches_for(returned(start, calls), peer),
        highest_accepted(start, calls, peer),
    );
    if pending_of(state, peer) == MAX_PENDING_BATCHES_PER_PEER && state.focus == peer
        && state.events.len() > 0 {
        crate::session::controller::law_backpressure_keeps_the_input(state);
    }
}

/// The same from the start of a controller on.
pub proof fn law_pending_batches_since_the_start(
    screens: Seq<crate::domain::arrangement::PlacementView>,
    local_node: Seq<char>,
    calls: Seq<ControllerCall>,
    peer: Seq<char>,
)
    requires
        crate::domain::arrangement::is_arrangement(screens),
        crate::domain::arrangement::has_node(screens, local_node),
        are_proper(calls),
        stays_peer(initial(screens, local_node), calls, peer),
        forall|i: int|
            0 <= i < calls.len() ==> #[trigger] keeps_delivery(
                initial(screens, local_node),
                calls,
                i,
                peer,
            ),
    ensures
        ({
            let start = initial(screens, local_node);
            let batches = batches_for(returned(start, calls), peer);
            &&& are_numbered(batches)
            &&& pending_of(after(start, calls), peer) == unacknowledged(
                batches,
                highest_accepted(start, calls, peer),
            ).len()
            &&& pending_of(after(start, calls), peer) <= MAX_PENDING_BATCHES_PER_PEER
        }),
{
    let start = initial(screens, local_node);
    law_controllers_start_afresh(screens, local_node);
    assert(calls.take(0) =~= Seq::<ControllerCall>::empty());
    assert(is_peer_before(start, calls, 0, peer));
    assert(before(start, calls, 0) == start);
    law_pending_batches_are_those_not_acknowledged(start, calls, peer);
}

/// Nothing is pending for a node that is no peer.
pub proof fn law_only_peers_have_pending_batches(state: ControllerView, node: Seq<char>)
    requires
        state.is_valid(),
        !is_peer(state.screens, state.local_node, node),
    ensures
        pending_of(state, node) == 0,
{
}

} // verus!
