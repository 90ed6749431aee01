//! Buffering of captured input.

use vstd::prelude::*;

use crate::domain::input::{InputEvent, InputKind};
use crate::protocol::message::MAX_INPUT_EVENTS_PER_BATCH;
use crate::saturating::saturating_add_i64;

verus! {

/// The event moves the pointer.
pub open spec fn is_motion(event: InputEvent) -> bool {
    event.kind is PointerRelative || event.kind is PointerAbsolute
}

/// Both events move the pointer in the same manner.
pub open spec fn merges(previous: InputEvent, event: InputEvent) -> bool {
    ||| previous.kind is PointerRelative && event.kind is PointerRelative
    ||| previous.kind is PointerAbsolute && event.kind is PointerAbsolute
}

/// One event with the effect of two that merge.
pub open spec fn merged(previous: InputEvent, event: InputEvent) -> InputEvent {
    InputEvent {
        elapsed_micros: if previous.elapsed_micros >= event.elapsed_micros {
            previous.elapsed_micros
        } else {
            event.elapsed_micros
        },
        kind: match (previous.kind, event.kind) {
            (
                InputKind::PointerRelative { dx_micropixels: x, dy_micropixels: y },
                InputKind::PointerRelative { dx_micropixels, dy_micropixels },
            ) => InputKind::PointerRelative {
                dx_micropixels: crate::saturating::clamp_i64(x + dx_micropixels),
                dy_micropixels: crate::saturating::clamp_i64(y + dy_micropixels),
            },
            _ => event.kind,
        },
    }
}

/// The last buffered event takes up `event`.
pub open spec fn can_take_up(events: Seq<InputEvent>, event: InputEvent) -> bool {
    events.len() > 0 && merges(events.last(), event)
}

/// The buffer after one more event.
pub open spec fn buffered_with(events: Seq<InputEvent>, event: InputEvent) -> Seq<InputEvent> {
    if can_take_up(events, event) {
        events.drop_last().push(merged(events.last(), event))
    } else {
        events.push(event)
    }
}

/// Events that wait to be sent in one batch. Adjacent pointer motion is kept
/// as one event.
#[derive(Debug)]
pub struct EventBuffer {
    events: Vec<InputEvent>,
}

impl View for EventBuffer {
    type V = Seq<InputEvent>;

    closed spec fn view(&self) -> Seq<InputEvent> {
        self.events@
    }
}

impl Default for EventBuffer {
    fn default() -> (buffer: EventBuffer)
        ensures
            buffer@ == Seq::<InputEvent>::empty(),
    {
        EventBuffer { events: Vec::new() }
    }
}

impl EventBuffer {
    /// Buffers an event. Returns whether the buffer fills a batch.
    pub fn push(&mut self, event: InputEvent) -> (full: bool)
        ensures
            final(self)@ == buffered_with(old(self)@, event),
            full == (final(self)@.len() >= MAX_INPUT_EVENTS_PER_BATCH),
    {
        let count: usize = self.events.len();
        if count > 0 {
            let previous = self.events[count - 1];
            let elapsed_micros: u64 = if previous.elapsed_micros >= event.elapsed_micros {
                previous.elapsed_micros
            } else {
                event.elapsed_micros
            };
            let kind = match (previous.kind, event.kind) {
                (
                    InputKind::PointerRelative { dx_micropixels: x, dy_micropixels: y },
                    InputKind::PointerRelative { dx_micropixels, dy_micropixels },
                ) => Some(
                    InputKind::PointerRelative {
                        dx_micropixels: saturating_add_i64(x, dx_micropixels),
                        dy_micropixels: saturating_add_i64(y, dy_micropixels),
                    },
                ),
                (InputKind::PointerAbsolute(_), InputKind::PointerAbsolute(point)) => Some(
                    InputKind::PointerAbsolute(point),
                ),
                _ => None,
            };
            if let Some(kind) = kind {
                let ghost before = self.events@;
                self.events.set(count - 1, InputEvent { elapsed_micros, kind });
                assert(self.events@ =~= before.drop_last().push(
                    merged(before.last(), event),
                ));
                return self.events.len() >= MAX_INPUT_EVENTS_PER_BATCH;
            }
        }
        self.events.push(event);
        self.events.len() >= MAX_INPUT_EVENTS_PER_BATCH
    }

    /// Takes all buffered events.
    pub fn take(&mut self) -> (events: Vec<InputEvent>)
        ensures
            events@ == old(self)@,
            final(self)@ == Seq::<InputEvent>::empty(),
    {
        let mut events: Vec<InputEvent> = Vec::new();
        std::mem::swap(&mut self.events, &mut events);
        events
    }

    pub fn is_empty(&self) -> (result: bool)
        ensures
            result == (self@.len() == 0),
    {
        self.events.is_empty()
    }

    /// Whether the buffer fills a batch.
    pub fn is_full(&self) -> (result: bool)
        ensures
            result == (self@.len() >= MAX_INPUT_EVENTS_PER_BATCH),
    {
        self.events.len() >= MAX_INPUT_EVENTS_PER_BATCH
    }

    /// Whether the last buffered event takes up `event`.
    pub fn can_coalesce(&self, event: InputEvent) -> (result: bool)
        ensures
            result == can_take_up(self@, event),
    {
        let count: usize = self.events.len();
        if count == 0 {
            return false;
        }
        match (self.events[count - 1].kind, event.kind) {
            (InputKind::PointerRelative { .. }, InputKind::PointerRelative { .. }) => true,
            (InputKind::PointerAbsolute(_), InputKind::PointerAbsolute(_)) => true,
            _ => false,
        }
    }
}

/// The key, button and scroll events of a sequence.
pub open spec fn without_motion(events: Seq<InputEvent>) -> Seq<InputEvent> {
    events.filter(|event: InputEvent| !is_motion(event))
}

/// Buffering never drops, changes or reorders a key, button or scroll event.
pub proof fn law_transitions_survive_buffering(events: Seq<InputEvent>, event: InputEvent)
    ensures
        without_motion(buffered_with(events, event)) == if is_motion(event) {
            without_motion(events)
        } else {
            without_motion(events).push(event)
        },
{
    let keep = |e: InputEvent| !is_motion(e);
    reveal(Seq::filter);
    if can_take_up(events, event) {
        let joined = merged(events.last(), event);
        let rest = events.drop_last();
        assert(rest.push(joined).drop_last() =~= rest);
        assert(events =~= rest.push(events.last()));
    } else {
        assert(events.push(event).drop_last() =~= events);
    }
}

/// Motion is taken up only by the event directly before it, so it never moves
/// past a key, button or scroll event.
pub proof fn law_motion_stays_behind_boundaries(events: Seq<InputEvent>, event: InputEvent)
    ensures
        events.len() > 0 && !is_motion(events.last()) ==> buffered_with(events, event)
            == events.push(event),
        forall|i: int|
            0 <= i < events.len() - 1 ==> #[trigger] buffered_with(events, event)[i] == events[i],
{
}

/// The horizontal and vertical distance that a sequence of events moves the
/// pointer by.
pub open spec fn total_motion(events: Seq<InputEvent>) -> (int, int)
    decreases events.len(),
{
    if events.len() == 0 {
        (0, 0)
    } else {
        let (x, y) = total_motion(events.drop_last());
        match events.last().kind {
            InputKind::PointerRelative { dx_micropixels, dy_micropixels } => (
                x + dx_micropixels,
                y + dy_micropixels,
            ),
            _ => (x, y),
        }
    }
}

/// Buffering keeps the total relative motion, as long as the motion of one
/// event stays in range.
pub proof fn law_buffering_keeps_total_motion(events: Seq<InputEvent>, dx: i64, dy: i64, time: u64)
    requires
        events.len() > 0 ==> (events.last().kind matches InputKind::PointerRelative {
            dx_micropixels,
            dy_micropixels,
        } ==> i64::MIN <= dx_micropixels + dx <= i64::MAX && i64::MIN <= dy_micropixels + dy
            <= i64::MAX),
    ensures
        ({
            let event = InputEvent {
                elapsed_micros: time,
                kind: InputKind::PointerRelative { dx_micropixels: dx, dy_micropixels: dy },
            };
            total_motion(buffered_with(events, event)) == (
                total_motion(events).0 + dx,
                total_motion(events).1 + dy,
            )
        }),
{
    let event = InputEvent {
        elapsed_micros: time,
        kind: InputKind::PointerRelative { dx_micropixels: dx, dy_micropixels: dy },
    };
    if can_take_up(events, event) {
        let rest = events.drop_last();
        assert(rest.push(merged(events.last(), event)).drop_last() =~= rest);
    } else {
        assert(events.push(event).drop_last() =~= events);
    }
}

/// A buffered event never makes the buffer grow by more than one, and motion
/// that is taken up does not make it grow.
pub proof fn law_buffer_growth(events: Seq<InputEvent>, event: InputEvent)
    ensures
        buffered_with(events, event).len() == if can_take_up(events, event) {
            events.len()
        } else {
            events.len() + 1
        },
{
}

} // verus!
