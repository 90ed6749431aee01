//! What an agent does with what it hears, and how motion is put together.

use vstd::prelude::*;

use crate::domain::geometry::{Point, Size};
use crate::domain::input::{InputEvent, InputKind};
use crate::session::agent::{step, ActionView, AgentError, AgentEvent, AgentView};

verus! {

/// The message that announces a focus.
pub open spec fn focus_message(
    epoch: u64,
    target: Seq<char>,
    position: Point,
) -> crate::protocol::message::SessionView {
    crate::protocol::message::SessionView::FocusChanged {
        focus_epoch: epoch,
        target,
        entry_position: position,
    }
}

/// An agent takes a newer focus: it lets go of what it holds if it had the focus,
/// and enters at the position if it is the one that gets it. What is announced for
/// an older epoch is passed over, and what is announced again must be the same.
pub proof fn law_agents_follow_the_newest_focus(
    state: AgentView,
    epoch: u64,
    target: Seq<char>,
    position: Point,
)
    requires
        state.is_valid(),
        !state.closed,
    ensures
        ({
            let result = step(state, AgentEvent::Message(focus_message(epoch, target, position)));
            let inside = 0 <= position.x < state.display_size.width@ && 0 <= position.y
                < state.display_size.height@;
            let mine = target == state.local_node;
            let newer = epoch > state.highest_epoch;
            &&& epoch < state.highest_epoch ==> result.state == state && (
            result.outcome matches Ok(actions) && actions.len() == 0)
            &&& epoch == state.highest_epoch ==> result.state == state && (result.outcome is Ok
                <==> (state.last_focus matches Some(last) && last.target == target
                && last.entry_position == position && last.epoch == epoch)) && (
            result.outcome matches Ok(actions) ==> actions.len() == 0)
            &&& newer && state.pending is Some ==> result.outcome is Err
            &&& newer && mine && !inside ==> result.outcome is Err
            &&& result.outcome is Err ==> result.state == state
            &&& newer && state.pending is None && (inside || !mine) ==> {
                &&& result.state.highest_epoch == epoch
                &&& result.state.active_epoch == if mine {
                    Some(epoch)
                } else {
                    None
                }
                &&& result.state.last_applied == state.last_applied
                &&& result.state.display_size == state.display_size
                &&& result.outcome matches Ok(actions) && {
                    &&& actions.len() == (if state.active_epoch is Some {
                        1int
                    } else {
                        0
                    }) + (if mine {
                        1int
                    } else {
                        0
                    })
                    &&& state.active_epoch is Some ==> actions[0] is ReleaseAllInput
                    &&& mine ==> actions.last() == ActionView::FocusEntered { position }
                }
            }
        }),
{
}

/// An agent applies the next batch of the active epoch while it applies no other.
pub proof fn law_agents_apply_the_next_batch(
    state: AgentView,
    batch: crate::protocol::message::BatchView,
)
    requires
        state.is_valid(),
        !state.closed,
        state.active_epoch == Some(batch.focus_epoch),
        state.pending is None,
        batch.sequence == state.last_applied + 1,
        1 <= batch.events.len() <= 512,
    ensures
        ({
            let result = step(
                state,
                AgentEvent::Message(crate::protocol::message::SessionView::Input(batch)),
            );
            &&& result.outcome matches Ok(actions) && actions.len() == 1 && actions[0]
                == ActionView::ApplyInput(batch)
            &&& result.state.pending == Some(batch)
            &&& result.state.last_applied == state.last_applied
        }),
{
}

/// Batches that are empty, too long, of another epoch, too early or not the next
/// are refused, each for its own reason, and change nothing.
pub proof fn law_other_batches_are_refused(
    state: AgentView,
    batch: crate::protocol::message::BatchView,
)
    requires
        state.is_valid(),
        !state.closed,
    ensures
        ({
            let result = step(
                state,
                AgentEvent::Message(crate::protocol::message::SessionView::Input(batch)),
            );
            let sized = 1 <= batch.events.len() <= 512;
            let current = state.active_epoch == Some(batch.focus_epoch);
            &&& batch.events.len() == 0 ==> result.outcome == Err::<Seq<ActionView>, AgentError>(
                AgentError::EmptyInputBatch,
            )
            &&& batch.events.len() > 512 ==> result.outcome == Err::<Seq<ActionView>, AgentError>(
                AgentError::TooManyInputEvents {
                    actual: batch.events.len() as usize,
                    maximum: 512,
                },
            )
            &&& sized && batch.focus_epoch < state.highest_epoch ==> result.outcome == Err::<
                Seq<ActionView>,
                AgentError,
            >(
                AgentError::StaleInputEpoch {
                    received: batch.focus_epoch,
                    current: state.highest_epoch,
                },
            )
            &&& sized && batch.focus_epoch >= state.highest_epoch && !current ==> result.outcome
                == Err::<Seq<ActionView>, AgentError>(
                AgentError::InactiveInputEpoch {
                    received: batch.focus_epoch,
                    active: state.active_epoch,
                },
            )
            &&& sized && current && state.pending is Some ==> result.outcome == Err::<
                Seq<ActionView>,
                AgentError,
            >(
                AgentError::InputApplicationPending {
                    sequence: state.pending->Some_0.sequence,
                },
            )
            &&& sized && current && state.pending is None && batch.sequence > state.last_applied + 1
                ==> result.outcome == Err::<Seq<ActionView>, AgentError>(
                AgentError::InputSequenceGap {
                    expected: (state.last_applied + 1) as u64,
                    received: batch.sequence,
                },
            )
            &&& result.outcome is Err ==> result.state == state
        }),
{
}

/// The confirmation of the batch that is being applied acknowledges it; any other
/// confirmation is refused and changes nothing.
pub proof fn law_confirmed_batches_are_acknowledged(state: AgentView, sequence: u64)
    requires
        state.is_valid(),
        !state.closed,
    ensures
        ({
            let result = step(state, AgentEvent::Confirmation { sequence });
            let expected = state.pending matches Some(batch) && batch.sequence == sequence;
            &&& expected <==> result.outcome is Ok
            &&& expected ==> {
                &&& result.outcome->Ok_0.len() == 1
                &&& result.outcome->Ok_0[0] == ActionView::Send(
                    crate::protocol::message::SessionView::InputAcknowledged {
                        through_sequence: sequence,
                    },
                )
                &&& result.state.last_applied == sequence
                &&& result.state.pending is None
                &&& result.state.active_epoch == state.active_epoch
            }
            &&& !expected ==> result.state == state
        }),
{
}

/// A heartbeat is answered with its own nonce, clipboard messages are passed on as
/// they are, and what only an agent sends is refused from a controller.
pub proof fn law_agents_answer_their_controller(
    state: AgentView,
    nonce: u64,
    control: crate::protocol::clipboard::ControlView,
    size: Size,
    count: u32,
)
    requires
        !state.closed,
    ensures
        ({
            let beat = step(
                state,
                AgentEvent::Message(crate::protocol::message::SessionView::Heartbeat { nonce }),
            );
            let echo = step(
                state,
                AgentEvent::Message(
                    crate::protocol::message::SessionView::HeartbeatAcknowledged { nonce },
                ),
            );
            let passed = step(
                state,
                AgentEvent::Message(crate::protocol::message::SessionView::Clipboard(control)),
            );
            &&& beat.state == state && beat.outcome == Ok::<Seq<ActionView>, AgentError>(
                seq![
                    ActionView::Send(
                        crate::protocol::message::SessionView::HeartbeatAcknowledged { nonce },
                    ),
                ],
            )
            &&& echo.state == state && (echo.outcome matches Ok(actions) && actions.len() == 0)
            &&& passed.state == state && passed.outcome == Ok::<Seq<ActionView>, AgentError>(
                seq![ActionView::Clipboard(control)],
            )
            &&& step(
                state,
                AgentEvent::Message(
                    crate::protocol::message::SessionView::InputAcknowledged {
                        through_sequence: nonce,
                    },
                ),
            ).outcome is Err
            &&& step(
                state,
                AgentEvent::Message(
                    crate::protocol::message::SessionView::DisplayChanged {
                        size,
                        monitor_count: count,
                    },
                ),
            ).outcome is Err
        }),
{
}

/// A farewell or a broken connection lets go of all input, ends the epoch and
/// closes the session.
pub proof fn law_ended_sessions_let_go(state: AgentView)
    requires
        !state.closed,
    ensures
        ({
            let farewell = step(
                state,
                AgentEvent::Message(crate::protocol::message::SessionView::Disconnect),
            );
            let lost = step(state, AgentEvent::ConnectionLoss);
            &&& farewell.outcome == Ok::<Seq<ActionView>, AgentError>(
                seq![ActionView::ReleaseAllInput, ActionView::CloseConnection],
            )
            &&& farewell.state.closed && farewell.state.active_epoch is None
                && farewell.state.pending is None
            &&& lost.outcome == farewell.outcome
            &&& lost.state == farewell.state
        }),
{
}

/// A change of the display lets go of all input and ends the epoch, so that no
/// input is applied until a newer focus comes; positions are then measured on the
/// new display.
pub proof fn law_changed_displays_end_the_epoch(
    state: AgentView,
    size: Size,
    batch: crate::protocol::message::BatchView,
)
    requires
        state.is_valid(),
    ensures
        ({
            let changed = step(state, AgentEvent::DisplayChange { display_size: size });
            &&& changed.outcome == Ok::<Seq<ActionView>, AgentError>(
                seq![ActionView::ReleaseAllInput],
            )
            &&& changed.state.display_size == size
            &&& changed.state.active_epoch is None
            &&& changed.state.pending is None
            &&& changed.state.highest_epoch == state.highest_epoch
            &&& changed.state.last_applied == state.last_applied
            &&& step(
                changed.state,
                AgentEvent::Message(crate::protocol::message::SessionView::Input(batch)),
            ).outcome is Err
        }),
{
}

/// Motion directly behind motion of the same manner becomes one event with it, and
/// that happens to nothing else: distances add up, of two places the later one
/// counts, and the time is that of the later event.
pub proof fn law_adjacent_motion_becomes_one(
    earlier: Seq<InputEvent>,
    last: InputEvent,
    event: InputEvent,
)
    ensures
        ({
            let buffered = crate::session::coalesce::buffered_with(earlier.push(last), event);
            let later = if last.elapsed_micros > event.elapsed_micros {
                last.elapsed_micros
            } else {
                event.elapsed_micros
            };
            match (last.kind, event.kind) {
                (
                    InputKind::PointerRelative { dx_micropixels: a, dy_micropixels: b },
                    InputKind::PointerRelative { dx_micropixels: c, dy_micropixels: d },
                ) => {
                    &&& buffered.len() == earlier.len() + 1
                    &&& buffered.drop_last() == earlier
                    &&& buffered.last().elapsed_micros == later
                    &&& buffered.last().kind matches InputKind::PointerRelative {
                        dx_micropixels: x,
                        dy_micropixels: y,
                    } && {
                        &&& i64::MIN <= a + c <= i64::MAX ==> x == a + c
                        &&& i64::MIN <= b + d <= i64::MAX ==> y == b + d
                        &&& a + c > i64::MAX ==> x == i64::MAX
                        &&& a + c < i64::MIN ==> x == i64::MIN
                        &&& b + d > i64::MAX ==> y == i64::MAX
                        &&& b + d < i64::MIN ==> y == i64::MIN
                    }
                },
                (InputKind::PointerAbsolute(_), InputKind::PointerAbsolute(place)) => {
                    &&& buffered.len() == earlier.len() + 1
                    &&& buffered.drop_last() == earlier
                    &&& buffered.last().elapsed_micros == later
                    &&& buffered.last().kind == InputKind::PointerAbsolute(place)
                },
                _ => buffered == earlier.push(last).push(event),
            }
        }),
{
    let events = earlier.push(last);
    assert(events.drop_last() =~= earlier);
    let buffered = crate::session::coalesce::buffered_with(events, event);
    if crate::session::coalesce::can_take_up(events, event) {
        assert(buffered.drop_last() =~= earlier);
    }
}

/// Events behind nothing are kept as they are.
pub proof fn law_the_first_event_is_kept(event: InputEvent)
    ensures
        crate::session::coalesce::buffered_with(Seq::empty(), event) == seq![event],
{
    assert(crate::session::coalesce::buffered_with(Seq::empty(), event) =~= seq![event]);
}

} // verus!
