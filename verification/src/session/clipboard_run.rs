//! Clipboard sessions from their start: what holds of all that happened to one.

use vstd::prelude::*;

use crate::session::clipboard::{
    acts, initial, step, ActionView, ClipboardEvent, ClipboardView, ErrorView,
};

verus! {

/// The state once all of `events` have happened.
pub open spec fn after(start: ClipboardView, events: Seq<ClipboardEvent>) -> ClipboardView
    decreases events.len(),
{
    if events.len() == 0 {
        start
    } else {
        step(after(start, events.drop_last()), events.last()).state
    }
}

/// The state in which the event at `index` finds the session.
pub open spec fn before(
    start: ClipboardView,
    events: Seq<ClipboardEvent>,
    index: int,
) -> ClipboardView {
    after(start, events.take(index))
}

/// The event at `index` makes the session hand `text` to the native clipboard.
pub open spec fn applies(
    start: ClipboardView,
    events: Seq<ClipboardEvent>,
    index: int,
    text: crate::protocol::clipboard::TextView,
) -> bool {
    &&& 0 <= index < events.len()
    &&& acts(before(start, events, index), events[index], ActionView::ApplyRemote(text))
}

/// The event at `index` confirms `generation`, and the session takes that.
pub open spec fn confirms(
    start: ClipboardView,
    events: Seq<ClipboardEvent>,
    index: int,
    generation: crate::protocol::clipboard::GenerationView,
) -> bool {
    &&& 0 <= index < events.len()
    &&& events[index] == (ClipboardEvent::Confirmation { generation })
    &&& step(before(start, events, index), events[index]).outcome is Ok
}

/// At `index` a text of `generation` was handed to the native clipboard, and
/// that has not been confirmed since.
pub open spec fn is_unconfirmed_since(
    start: ClipboardView,
    events: Seq<ClipboardEvent>,
    index: int,
    generation: crate::protocol::clipboard::GenerationView,
) -> bool {
    &&& exists|text: crate::protocol::clipboard::TextView| #[trigger]
        applies(start, events, index, text) && text.generation == generation
    &&& forall|later: int| index < later ==> !#[trigger] confirms(start, events, later, generation)
}

/// The offer has come in.
pub open spec fn is_offered(
    events: Seq<ClipboardEvent>,
    offer: crate::protocol::clipboard::OfferView,
) -> bool {
    events.contains(
        ClipboardEvent::Control(crate::protocol::clipboard::ControlView::Offered(offer)),
    )
}

/// The text has come in.
pub open spec fn is_received(
    events: Seq<ClipboardEvent>,
    text: crate::protocol::clipboard::TextView,
) -> bool {
    events.contains(ClipboardEvent::Transfer(text))
}

proof fn lemma_shorter_run(start: ClipboardView, events: Seq<ClipboardEvent>)
    requires
        events.len() > 0,
    ensures
        before(start, events, events.len() - 1) == after(start, events.drop_last()),
        forall|index: int, text: crate::protocol::clipboard::TextView|
            index < events.len() - 1 ==> #[trigger] applies(start, events, index, text) == applies(
                start,
                events.drop_last(),
                index,
                text,
            ),
        forall|index: int, generation: crate::protocol::clipboard::GenerationView|
            index < events.len() - 1 ==> #[trigger] confirms(start, events, index, generation)
                == confirms(start, events.drop_last(), index, generation),
{
    let shorter = events.drop_last();
    assert(events.take(events.len() - 1) =~= shorter);
    assert forall|index: int, text: crate::protocol::clipboard::TextView|
        index < events.len() - 1 implies #[trigger] applies(start, events, index, text) == applies(
        start,
        shorter,
        index,
        text,
    ) by {
        if 0 <= index {
            assert(events.take(index) =~= shorter.take(index));
        }
    }
    assert forall|index: int, generation: crate::protocol::clipboard::GenerationView|
        index < events.len() - 1 implies #[trigger] confirms(start, events, index, generation)
        == confirms(start, shorter, index, generation) by {
        if 0 <= index {
            assert(events.take(index) =~= shorter.take(index));
        }
    }
}

/// What one event does to the text that is being applied.
proof fn lemma_application_step(state: ClipboardView, event: ClipboardEvent)
    requires
        state.is_valid(),
    ensures
        ({
            let next = step(state, event).state;
            let confirmed = event is Confirmation && step(state, event).outcome is Ok;
            &&& next.is_valid()
            &&& next.peer_node == state.peer_node
            &&& confirmed ==> state.pending_generation() == Some(event->generation)
                && next.last_applied == event->generation.sequence
                && next.pending_generation() != state.pending_generation()
            &&& !confirmed ==> next.last_applied == state.last_applied
            &&& !confirmed && state.applying is Some ==> next.applying == state.applying
            &&& forall|text: crate::protocol::clipboard::TextView| #[trigger]
                acts(state, event, ActionView::ApplyRemote(text)) <==> {
                    &&& next.applying is Some
                    &&& next.applying->Some_0.transfer == Some(text)
                    &&& state.applying is None || confirmed
                }
        }),
{
    let next = step(state, event).state;
    let confirmed = event is Confirmation && step(state, event).outcome is Ok;
    assert forall|text: crate::protocol::clipboard::TextView| #[trigger]
        acts(state, event, ActionView::ApplyRemote(text)) <==> {
            &&& next.applying is Some
            &&& next.applying->Some_0.transfer == Some(text)
            &&& state.applying is None || confirmed
        } by {
        if let Ok(actions) = step(state, event).outcome {
            let wanted = ActionView::ApplyRemote(text);
            if actions.contains(wanted) {
                let i = choose|i: int| 0 <= i < actions.len() && actions[i] == wanted;
                assert(actions[i] == wanted);
            }
            if next.applying is Some && (state.applying is None || confirmed) {
                assert(actions.last() == ActionView::ApplyRemote(
                    next.applying->Some_0.transfer->Some_0,
                ));
            }
        }
    }
}

/// What a session holds of the peer's text is among these offers and texts.
spec fn holds_some_of(
    state: ClipboardView,
    offers: Set<crate::protocol::clipboard::OfferView>,
    texts: Set<crate::protocol::clipboard::TextView>,
) -> bool {
    &&& state.incoming matches Some(incoming) ==> {
        &&& incoming.offer matches Some(offer) ==> offers.contains(offer)
        &&& incoming.transfer matches Some(text) ==> texts.contains(text)
    }
    &&& state.applying matches Some(applying) ==> {
        &&& applying.offer matches Some(offer) ==> offers.contains(offer)
        &&& applying.transfer matches Some(text) ==> texts.contains(text)
    }
}

proof fn lemma_step_holds_some_of(
    state: ClipboardView,
    event: ClipboardEvent,
    offers: Set<crate::protocol::clipboard::OfferView>,
    texts: Set<crate::protocol::clipboard::TextView>,
)
    requires
        holds_some_of(state, offers, texts),
        event matches ClipboardEvent::Control(
            crate::protocol::clipboard::ControlView::Offered(offer),
        ) ==> offers.contains(offer),
        event matches ClipboardEvent::Transfer(text) ==> texts.contains(text),
    ensures
        holds_some_of(step(state, event).state, offers, texts),
{
}

spec fn offers_in(events: Seq<ClipboardEvent>) -> Set<crate::protocol::clipboard::OfferView> {
    Set::new(|offer: crate::protocol::clipboard::OfferView| is_offered(events, offer))
}

spec fn texts_in(events: Seq<ClipboardEvent>) -> Set<crate::protocol::clipboard::TextView> {
    Set::new(|text: crate::protocol::clipboard::TextView| is_received(events, text))
}

proof fn lemma_more_came_in(events: Seq<ClipboardEvent>)
    requires
        events.len() > 0,
    ensures
        offers_in(events.drop_last()).subset_of(offers_in(events)),
        texts_in(events.drop_last()).subset_of(texts_in(events)),
        events.last() matches ClipboardEvent::Control(
            crate::protocol::clipboard::ControlView::Offered(offer),
        ) ==> offers_in(events).contains(offer),
        events.last() matches ClipboardEvent::Transfer(text) ==> texts_in(events).contains(text),
{
    let shorter = events.drop_last();
    assert(events[events.len() - 1] == events.last());
    assert forall|event: ClipboardEvent| #[trigger] shorter.contains(event) implies events.contains(
        event,
    ) by {
        let i = choose|i: int| 0 <= i < shorter.len() && shorter[i] == event;
        assert(events[i] == event);
    }
}

/// What a session holds of the peer's text has come in.
spec fn holds_what_came_in(state: ClipboardView, events: Seq<ClipboardEvent>) -> bool {
    holds_some_of(state, offers_in(events), texts_in(events))
}

proof fn lemma_run_holds_what_came_in(
    local_node: Seq<char>,
    peer_node: Seq<char>,
    events: Seq<ClipboardEvent>,
)
    ensures
        after(initial(local_node, peer_node), events).is_valid(),
        after(initial(local_node, peer_node), events).peer_node == peer_node,
        holds_what_came_in(after(initial(local_node, peer_node), events), events),
    decreases events.len(),
{
    let start = initial(local_node, peer_node);
    if events.len() > 0 {
        let shorter = events.drop_last();
        lemma_run_holds_what_came_in(local_node, peer_node, shorter);
        let state = after(start, shorter);
        lemma_application_step(state, events.last());
        lemma_more_came_in(events);
        lemma_step_holds_some_of(state, events.last(), offers_in(events), texts_in(events));
    }
}

/// A text that was handed to the native clipboard is older than, or the same as,
/// what was applied last or is being applied.
proof fn lemma_applied_so_far(
    local_node: Seq<char>,
    peer_node: Seq<char>,
    events: Seq<ClipboardEvent>,
    index: int,
    text: crate::protocol::clipboard::TextView,
)
    requires
        applies(initial(local_node, peer_node), events, index, text),
    ensures
        ({
            let state = after(initial(local_node, peer_node), events);
            ||| text.generation.sequence <= state.last_applied
            ||| state.pending_generation() == Some(text.generation)
        }),
    decreases events.len(),
{
    let start = initial(local_node, peer_node);
    let shorter = events.drop_last();
    let state = after(start, shorter);
    lemma_shorter_run(start, events);
    lemma_run_holds_what_came_in(local_node, peer_node, shorter);
    lemma_application_step(state, events.last());
    if index < events.len() - 1 {
        lemma_applied_so_far(local_node, peer_node, shorter, index, text);
    }
}

proof fn lemma_unconfirmed(
    local_node: Seq<char>,
    peer_node: Seq<char>,
    events: Seq<ClipboardEvent>,
    index: int,
    generation: crate::protocol::clipboard::GenerationView,
)
    requires
        is_unconfirmed_since(initial(local_node, peer_node), events, index, generation),
    ensures
        after(initial(local_node, peer_node), events).pending_generation() == Some(generation),
        forall|later: int, text: crate::protocol::clipboard::TextView|
            index < later ==> !#[trigger] applies(
                initial(local_node, peer_node),
                events,
                later,
                text,
            ),
    decreases events.len(),
{
    let start = initial(local_node, peer_node);
    let shorter = events.drop_last();
    let last = events.len() - 1;
    let state = after(start, shorter);
    lemma_shorter_run(start, events);
    lemma_run_holds_what_came_in(local_node, peer_node, shorter);
    lemma_application_step(state, events.last());
    if index < last {
        assert forall|later: int| index < later implies !#[trigger] confirms(
            start,
            shorter,
            later,
            generation,
        ) by {
            if later < last {
                assert(!confirms(start, events, later, generation));
            }
        }
        let text = choose|text: crate::protocol::clipboard::TextView| #[trigger]
            applies(start, events, index, text) && text.generation == generation;
        assert(applies(start, shorter, index, text));
        lemma_unconfirmed(local_node, peer_node, shorter, index, generation);
        assert(!confirms(start, events, last, generation));
        assert forall|later: int, other: crate::protocol::clipboard::TextView|
            index < later implies !#[trigger] applies(start, events, later, other) by {
            if later < last {
                assert(!applies(start, shorter, later, other));
            } else if later == last {
                assert(!acts(state, events.last(), ActionView::ApplyRemote(other)));
            }
        }
    }
}

proof fn lemma_pending_since(
    local_node: Seq<char>,
    peer_node: Seq<char>,
    events: Seq<ClipboardEvent>,
) -> (index: int)
    requires
        after(initial(local_node, peer_node), events).applying is Some,
    ensures
        is_unconfirmed_since(
            initial(local_node, peer_node),
            events,
            index,
            after(initial(local_node, peer_node), events).applying->Some_0.generation,
        ),
    decreases events.len(),
{
    let start = initial(local_node, peer_node);
    let shorter = events.drop_last();
    let last = events.len() - 1;
    let state = after(start, shorter);
    let applying = after(start, events).applying->Some_0;
    let generation = applying.generation;
    let text = applying.transfer->Some_0;
    lemma_shorter_run(start, events);
    lemma_run_holds_what_came_in(local_node, peer_node, shorter);
    lemma_application_step(state, events.last());
    if state.applying is None || (events.last() is Confirmation && step(
        state,
        events.last(),
    ).outcome is Ok) {
        assert(acts(state, events.last(), ActionView::ApplyRemote(text)));
        assert(applies(start, events, last, text));
        last
    } else {
        let index = lemma_pending_since(local_node, peer_node, shorter);
        let handed = choose|handed: crate::protocol::clipboard::TextView| #[trigger]
            applies(start, shorter, index, handed) && handed.generation == generation;
        assert(applies(start, events, index, handed));
        assert forall|later: int| index < later implies !#[trigger] confirms(
            start,
            events,
            later,
            generation,
        ) by {
            if later < last {
                assert(!confirms(start, shorter, later, generation));
            }
        }
        index
    }
}

/// However a session is used, a generation is pending exactly while its text was
/// handed to the native clipboard and not confirmed since. Meanwhile no other
/// text is handed over, and a confirmation of another generation is refused and
/// changes nothing.
pub proof fn law_pending_application_awaits_its_confirmation(
    local_node: Seq<char>,
    peer_node: Seq<char>,
    events: Seq<ClipboardEvent>,
    generation: crate::protocol::clipboard::GenerationView,
)
    ensures
        ({
            let start = initial(local_node, peer_node);
            let state = after(start, events);
            &&& state.pending_generation() == Some(generation) <==> exists|index: int| #[trigger]
                is_unconfirmed_since(start, events, index, generation)
            &&& forall|index: int, later: int, text: crate::protocol::clipboard::TextView|
                index < later && #[trigger] is_unconfirmed_since(start, events, index, generation)
                    ==> !#[trigger] applies(start, events, later, text)
            &&& state.pending_generation() != Some(generation) ==> {
                let refused = step(state, ClipboardEvent::Confirmation { generation });
                &&& refused.state == state
                &&& refused.outcome == Err::<Seq<ActionView>, ErrorView>(
                    match state.pending_generation() {
                        Some(expected) => ErrorView::ApplicationGenerationMismatch {
                            expected,
                            received: generation,
                        },
                        None => ErrorView::NoApplicationPending,
                    },
                )
            }
        }),
{
    let start = initial(local_node, peer_node);
    let state = after(start, events);
    assert forall|index: int| #[trigger]
        is_unconfirmed_since(start, events, index, generation) implies state.pending_generation()
        == Some(generation) && (forall|later: int, text: crate::protocol::clipboard::TextView|
        index < later ==> !#[trigger] applies(start, events, later, text)) by {
        lemma_unconfirmed(local_node, peer_node, events, index, generation);
    }
    if state.pending_generation() == Some(generation) {
        let index = lemma_pending_since(local_node, peer_node, events);
        assert(is_unconfirmed_since(start, events, index, generation));
    }
}

/// However a session is used, a text is handed to the native clipboard only once
/// it and an offer that it matches have both come in, only if it belongs to the
/// peer, and only if it is newer than every text that was handed over before.
pub proof fn law_applied_texts_are_received_verified_and_newer(
    local_node: Seq<char>,
    peer_node: Seq<char>,
    events: Seq<ClipboardEvent>,
    index: int,
    text: crate::protocol::clipboard::TextView,
)
    requires
        applies(initial(local_node, peer_node), events, index, text),
    ensures
        is_received(events.take(index + 1), text),
        exists|offer: crate::protocol::clipboard::OfferView| #[trigger]
            is_offered(events.take(index + 1), offer) && offer.mismatch(text) is None,
        text.generation.owner == peer_node,
        forall|earlier: int, other: crate::protocol::clipboard::TextView|
            earlier < index && #[trigger] applies(
                initial(local_node, peer_node),
                events,
                earlier,
                other,
            ) ==> other.generation.sequence < text.generation.sequence,
{
    let start = initial(local_node, peer_node);
    let past = events.take(index);
    let present = events.take(index + 1);
    let state = after(start, past);
    assert(present.drop_last() =~= past);
    assert(present.last() == events[index]);
    lemma_run_holds_what_came_in(local_node, peer_node, past);
    lemma_run_holds_what_came_in(local_node, peer_node, present);
    lemma_application_step(state, events[index]);
    let applying = after(start, present).applying->Some_0;
    assert(offers_in(present).contains(applying.offer->Some_0));
    assert(is_offered(present, applying.offer->Some_0));
    assert(texts_in(present).contains(text));
    assert forall|earlier: int, other: crate::protocol::clipboard::TextView|
        earlier < index && #[trigger] applies(start, events, earlier, other) implies
        other.generation.sequence < text.generation.sequence by {
        assert(past.take(earlier) =~= events.take(earlier));
        assert(applies(start, past, earlier, other));
        lemma_applied_so_far(local_node, peer_node, past, earlier, other);
    }
}

/// The event at `index` is a change of the local clipboard that goes out: an offer
/// and the text itself.
pub open spec fn sends(start: ClipboardView, events: Seq<ClipboardEvent>, index: int) -> bool {
    &&& 0 <= index < events.len()
    &&& events[index] matches ClipboardEvent::LocalChange { text }
        && step(before(start, events, index), events[index]).outcome matches Ok(actions)
        && actions.len() > 0
}

/// The event at `index` is a confirmation that the session takes.
pub open spec fn takes_confirmation(
    start: ClipboardView,
    events: Seq<ClipboardEvent>,
    index: int,
) -> bool {
    &&& 0 <= index < events.len()
    &&& events[index] is Confirmation
    &&& step(before(start, events, index), events[index]).outcome is Ok
}

/// At `index` the native clipboard confirmed `text`, which had been handed to it
/// for the peer, and since then nothing else was confirmed and no local change went
/// out.
pub open spec fn is_last_confirmed(
    start: ClipboardView,
    events: Seq<ClipboardEvent>,
    index: int,
    text: Seq<char>,
) -> bool {
    &&& takes_confirmation(start, events, index)
    &&& exists|handed: int, transfer: crate::protocol::clipboard::TextView|
        handed < index && #[trigger] applies(start, events, handed, transfer) && transfer.text
            == text && events[index] == (ClipboardEvent::Confirmation {
            generation: transfer.generation,
        })
    &&& forall|later: int|
        index < later ==> !#[trigger] takes_confirmation(start, events, later)
    &&& forall|later: int| index < later ==> !#[trigger] sends(start, events, later)
}

proof fn lemma_shorter_changes(start: ClipboardView, events: Seq<ClipboardEvent>)
    requires
        events.len() > 0,
    ensures
        forall|index: int|
            index < events.len() - 1 ==> #[trigger] sends(start, events, index) == sends(
                start,
                events.drop_last(),
                index,
            ),
        forall|index: int|
            index < events.len() - 1 ==> #[trigger] takes_confirmation(start, events, index)
                == takes_confirmation(start, events.drop_last(), index),
        forall|index: int| index >= events.len() ==> !#[trigger] sends(start, events, index),
        forall|index: int|
            index >= events.len() ==> !#[trigger] takes_confirmation(start, events, index),
{
    let shorter = events.drop_last();
    assert forall|index: int| index < events.len() - 1 implies #[trigger] sends(
        start,
        events,
        index,
    ) == sends(start, shorter, index) by {
        if 0 <= index {
            assert(events.take(index) =~= shorter.take(index));
        }
    }
    assert forall|index: int| index < events.len() - 1 implies #[trigger] takes_confirmation(
        start,
        events,
        index,
    ) == takes_confirmation(start, shorter, index) by {
        if 0 <= index {
            assert(events.take(index) =~= shorter.take(index));
        }
    }
}

proof fn lemma_pending_text(
    local_node: Seq<char>,
    peer_node: Seq<char>,
    events: Seq<ClipboardEvent>,
    index: int,
    text: crate::protocol::clipboard::TextView,
)
    requires
        applies(initial(local_node, peer_node), events, index, text),
        forall|later: int|
            index < later ==> !#[trigger] confirms(
                initial(local_node, peer_node),
                events,
                later,
                text.generation,
            ),
    ensures
        after(initial(local_node, peer_node), events).applying matches Some(applying)
            && applying.transfer == Some(text) && applying.generation == text.generation,
    decreases events.len(),
{
    let start = initial(local_node, peer_node);
    let shorter = events.drop_last();
    let last = events.len() - 1;
    let state = after(start, shorter);
    lemma_shorter_run(start, events);
    lemma_run_holds_what_came_in(local_node, peer_node, shorter);
    lemma_application_step(state, events.last());
    if index < last {
        assert(applies(start, shorter, index, text));
        assert forall|later: int| index < later implies !#[trigger] confirms(
            start,
            shorter,
            later,
            text.generation,
        ) by {
            if later < last {
                assert(!confirms(start, events, later, text.generation));
            }
        }
        lemma_pending_text(local_node, peer_node, shorter, index, text);
        assert(!confirms(start, events, last, text.generation));
    }
}

/// What one event does to the text that counts as an echo.
proof fn lemma_echo_step(state: ClipboardView, event: ClipboardEvent)
    requires
        state.is_valid(),
    ensures
        ({
            let result = step(state, event);
            let confirmed = event is Confirmation && result.outcome is Ok;
            let sent = event is LocalChange && result.outcome is Ok && result.outcome->Ok_0.len()
                > 0;
            &&& confirmed ==> (state.applying matches Some(applying)
                && result.state.remote_text == Some(applying.transfer->Some_0.text)
                && event->generation == applying.generation)
            &&& sent ==> result.state.remote_text is None
            &&& !confirmed && !sent ==> result.state.remote_text == state.remote_text
        }),
{
}

/// The text that is confirmed at the end is the one that was handed over.
proof fn lemma_confirmed_at_the_end(
    local_node: Seq<char>,
    peer_node: Seq<char>,
    events: Seq<ClipboardEvent>,
) -> (handed: (int, crate::protocol::clipboard::TextView))
    requires
        events.len() > 0,
        takes_confirmation(initial(local_node, peer_node), events, events.len() - 1),
    ensures
        handed.0 < events.len() - 1,
        applies(initial(local_node, peer_node), events, handed.0, handed.1),
        events.last() == (ClipboardEvent::Confirmation { generation: handed.1.generation }),
        after(initial(local_node, peer_node), events).remote_text == Some(handed.1.text),
{
    let start = initial(local_node, peer_node);
    let shorter = events.drop_last();
    let state = after(start, shorter);
    lemma_shorter_run(start, events);
    lemma_run_holds_what_came_in(local_node, peer_node, shorter);
    lemma_echo_step(state, events.last());
    let index = lemma_pending_since(local_node, peer_node, shorter);
    let generation = state.applying->Some_0.generation;
    let transfer = choose|transfer: crate::protocol::clipboard::TextView| #[trigger]
        applies(start, shorter, index, transfer) && transfer.generation == generation;
    lemma_pending_text(local_node, peer_node, shorter, index, transfer);
    assert(applies(start, events, index, transfer));
    (index, transfer)
}

/// No generation is handed over twice.
proof fn lemma_handed_over_once(
    local_node: Seq<char>,
    peer_node: Seq<char>,
    events: Seq<ClipboardEvent>,
    i: int,
    a: crate::protocol::clipboard::TextView,
    j: int,
    b: crate::protocol::clipboard::TextView,
)
    requires
        applies(initial(local_node, peer_node), events, i, a),
        applies(initial(local_node, peer_node), events, j, b),
        a.generation == b.generation,
    ensures
        a == b,
{
    if i < j {
        law_applied_texts_are_received_verified_and_newer(local_node, peer_node, events, j, b);
    } else if j < i {
        law_applied_texts_are_received_verified_and_newer(local_node, peer_node, events, i, a);
    } else {
        lemma_prefix_is_valid(local_node, peer_node, events, i);
        lemma_application_step(before(initial(local_node, peer_node), events, i), events[i]);
    }
}

proof fn lemma_echo_after_confirmation(
    local_node: Seq<char>,
    peer_node: Seq<char>,
    events: Seq<ClipboardEvent>,
    text: Seq<char>,
)
    requires
        events.len() > 0,
        takes_confirmation(initial(local_node, peer_node), events, events.len() - 1),
    ensures
        after(initial(local_node, peer_node), events).remote_text == Some(text) <==> exists|
            index: int,
        | #[trigger]
            is_last_confirmed(initial(local_node, peer_node), events, index, text),
{
    let start = initial(local_node, peer_node);
    let last = events.len() - 1;
    let (handed, transfer) = lemma_confirmed_at_the_end(local_node, peer_node, events);
    lemma_shorter_changes(start, events);
    assert(events[last] == events.last());
    if transfer.text == text {
        assert(is_last_confirmed(start, events, last, text));
    }
    if exists|index: int| #[trigger] is_last_confirmed(start, events, index, text) {
        let index = choose|index: int| #[trigger] is_last_confirmed(start, events, index, text);
        assert(index == last) by {
            if index < last {
                assert(!takes_confirmation(start, events, last));
            }
        }
        let (other, given) = choose|other: int, given: crate::protocol::clipboard::TextView|
            other < index && #[trigger] applies(start, events, other, given) && given.text == text
                && events[index] == (ClipboardEvent::Confirmation { generation: given.generation });
        lemma_handed_over_once(
            local_node,
            peer_node,
            events,
            handed,
            transfer,
            other,
            given,
        );
    }
}

proof fn lemma_echo_run(
    local_node: Seq<char>,
    peer_node: Seq<char>,
    events: Seq<ClipboardEvent>,
    text: Seq<char>,
)
    ensures
        after(initial(local_node, peer_node), events).remote_text == Some(text) <==> exists|
            index: int,
        | #[trigger]
            is_last_confirmed(initial(local_node, peer_node), events, index, text),
    decreases events.len(),
{
    let start = initial(local_node, peer_node);
    if events.len() == 0 {
        lemma_nothing_confirmed(start, events, text);
    } else {
        let shorter = events.drop_last();
        let last = events.len() - 1;
        let event = events.last();
        let state = after(start, shorter);
        lemma_echo_run(local_node, peer_node, shorter, text);
        assert(events[last] == event);
        if takes_confirmation(start, events, last) {
            lemma_echo_after_confirmation(local_node, peer_node, events, text);
        } else {
            lemma_shorter_run(start, events);
            lemma_run_holds_what_came_in(local_node, peer_node, shorter);
            lemma_echo_step(state, event);
            if sends(start, events, last) {
                assert forall|index: int| !#[trigger] is_last_confirmed(
                    start,
                    events,
                    index,
                    text,
                ) by {
                    if is_last_confirmed(start, events, index, text) {
                        assert(index < last);
                        assert(!sends(start, events, last));
                    }
                }
            } else {
                assert forall|index: int| #[trigger] is_last_confirmed(start, events, index, text)
                    == is_last_confirmed(start, shorter, index, text) by {
                    lemma_same_last_confirmed(start, events, index, text);
                }
                assert forall|index: int| #[trigger] is_last_confirmed(
                    start,
                    shorter,
                    index,
                    text,
                ) implies is_last_confirmed(start, events, index, text) by {
                    lemma_same_last_confirmed(start, events, index, text);
                }
            }
        }
    }
}

proof fn lemma_nothing_confirmed(
    start: ClipboardView,
    events: Seq<ClipboardEvent>,
    text: Seq<char>,
)
    requires
        events.len() == 0,
    ensures
        forall|index: int| !#[trigger] is_last_confirmed(start, events, index, text),
{
}

proof fn lemma_prefix_is_valid(
    local_node: Seq<char>,
    peer_node: Seq<char>,
    events: Seq<ClipboardEvent>,
    index: int,
)
    ensures
        before(initial(local_node, peer_node), events, index).is_valid(),
{
    lemma_run_holds_what_came_in(local_node, peer_node, events.take(index));
}

proof fn lemma_same_last_confirmed(
    start: ClipboardView,
    events: Seq<ClipboardEvent>,
    index: int,
    text: Seq<char>,
)
    requires
        events.len() > 0,
        !takes_confirmation(start, events, events.len() - 1),
        !sends(start, events, events.len() - 1),
    ensures
        is_last_confirmed(start, events, index, text) == is_last_confirmed(
            start,
            events.drop_last(),
            index,
            text,
        ),
{
    let shorter = events.drop_last();
    let last = events.len() - 1;
    lemma_shorter_run(start, events);
    lemma_shorter_changes(start, events);
    if is_last_confirmed(start, events, index, text) {
        assert(index < last);
        let (handed, transfer) = choose|
            handed: int,
            transfer: crate::protocol::clipboard::TextView,
        |
            handed < index && #[trigger] applies(start, events, handed, transfer) && transfer.text
                == text && events[index] == (ClipboardEvent::Confirmation {
                generation: transfer.generation,
            });
        assert(applies(start, shorter, handed, transfer));
        assert(shorter[index] == events[index]);
        assert forall|later: int| index < later implies !#[trigger] takes_confirmation(
            start,
            shorter,
            later,
        ) by {
            if later < last {
                assert(!takes_confirmation(start, events, later));
            }
        }
        assert forall|later: int| index < later implies !#[trigger] sends(
            start,
            shorter,
            later,
        ) by {
            if later < last {
                assert(!sends(start, events, later));
            }
        }
    }
    if is_last_confirmed(start, shorter, index, text) {
        let (handed, transfer) = choose|
            handed: int,
            transfer: crate::protocol::clipboard::TextView,
        |
            handed < index && #[trigger] applies(start, shorter, handed, transfer) && transfer.text
                == text && shorter[index] == (ClipboardEvent::Confirmation {
                generation: transfer.generation,
            });
        assert(applies(start, events, handed, transfer));
        assert(shorter[index] == events[index]);
        assert forall|later: int| index < later implies !#[trigger] takes_confirmation(
            start,
            events,
            later,
        ) by {
            if later < last {
                assert(!takes_confirmation(start, shorter, later));
            }
        }
        assert forall|later: int| index < later implies !#[trigger] sends(
            start,
            events,
            later,
        ) by {
            if later < last {
                assert(!sends(start, shorter, later));
            }
        }
    }
}

/// The number of local changes that went out.
pub open spec fn changes_sent(start: ClipboardView, events: Seq<ClipboardEvent>) -> int
    decreases events.len(),
{
    if events.len() == 0 {
        0
    } else {
        changes_sent(start, events.drop_last()) + if sends(start, events, events.len() - 1) {
            1int
        } else {
            0
        }
    }
}

proof fn lemma_changes_counted(
    local_node: Seq<char>,
    peer_node: Seq<char>,
    events: Seq<ClipboardEvent>,
)
    ensures
        ({
            let start = initial(local_node, peer_node);
            let state = after(start, events);
            &&& state.local_node == local_node
            &&& state.last_sent == changes_sent(start, events)
            &&& state.next_local matches Some(next) ==> next == state.last_sent + 1
            &&& state.next_local is None ==> state.last_sent == u64::MAX
        }),
    decreases events.len(),
{
    let start = initial(local_node, peer_node);
    if events.len() > 0 {
        let shorter = events.drop_last();
        lemma_shorter_run(start, events);
        lemma_run_holds_what_came_in(local_node, peer_node, shorter);
        lemma_changes_counted(local_node, peer_node, shorter);
        assert(events[events.len() - 1] == events.last());
    }
}

/// However a session is used, a change of the local clipboard is kept back exactly
/// where its text is the one that the native clipboard confirmed last for the peer,
/// and no local change went out since. Every other change goes out, whatever its
/// text: as an offer of its length and digest followed by the text, numbered one
/// after the other from 1 on. It is refused only where the text is too long or the
/// numbers have run out.
pub proof fn law_only_echoes_are_kept_back(
    local_node: Seq<char>,
    peer_node: Seq<char>,
    events: Seq<ClipboardEvent>,
    text: Seq<char>,
)
    ensures
        ({
            let start = initial(local_node, peer_node);
            let state = after(start, events);
            let change = step(state, ClipboardEvent::LocalChange { text });
            let is_echo = exists|index: int| #[trigger]
                is_last_confirmed(start, events, index, text);
            let bytes = vstd::utf8::encode_utf8(text);
            let number = changes_sent(start, events) + 1;
            &&& is_echo ==> change.state == state && (change.outcome matches Ok(actions)
                && actions.len() == 0)
            &&& !is_echo && number <= u64::MAX && bytes.len() <= 0x10_0000 ==> {
                &&& change.outcome matches Ok(actions) && actions.len() == 2 && (
                actions[0] matches ActionView::SendControl(
                    crate::protocol::clipboard::ControlView::Offered(offer),
                ) && offer.generation.owner == local_node && offer.generation.sequence == number
                    && offer.text_bytes == bytes.len() && offer.digest == crate::digest::sha256_of(
                    bytes,
                )) && (actions[1] matches ActionView::SendTransfer(sent) && sent.text == text
                    && sent.generation.owner == local_node && sent.generation.sequence == number)
                &&& change.state.pending_local matches Some(pending) && pending.owner == local_node
                    && pending.sequence == number
            }
            &&& !is_echo && (number > u64::MAX || bytes.len() > 0x10_0000) ==> change.outcome is Err
                && change.state == state
        }),
{
    lemma_echo_run(local_node, peer_node, events, text);
    lemma_changes_counted(local_node, peer_node, events);
    lemma_run_holds_what_came_in(local_node, peer_node, events);
}

/// Once a local change went out, every further one goes out too, up to the next
/// confirmation, whatever its text.
pub proof fn law_changes_after_a_change_go_out(
    local_node: Seq<char>,
    peer_node: Seq<char>,
    events: Seq<ClipboardEvent>,
    sent: int,
    text: Seq<char>,
)
    requires
        sends(initial(local_node, peer_node), events, sent),
        forall|later: int|
            sent < later ==> !#[trigger] takes_confirmation(
                initial(local_node, peer_node),
                events,
                later,
            ),
        vstd::utf8::encode_utf8(text).len() <= 0x10_0000,
        changes_sent(initial(local_node, peer_node), events) < u64::MAX,
    ensures
        ({
            let start = initial(local_node, peer_node);
            step(after(start, events), ClipboardEvent::LocalChange { text }).outcome matches Ok(
                actions,
            ) && actions.len() == 2 && (actions[1] matches ActionView::SendTransfer(transfer)
                && transfer.text == text)
        }),
{
    let start = initial(local_node, peer_node);
    assert forall|index: int| !#[trigger] is_last_confirmed(start, events, index, text) by {
        if is_last_confirmed(start, events, index, text) {
            assert(sends(start, events, sent));
            if index == sent {
                assert(events[sent] is Confirmation);
            } else if sent < index {
                assert(!takes_confirmation(start, events, index));
            } else {
                assert(!sends(start, events, sent));
            }
        }
    }
    law_only_echoes_are_kept_back(local_node, peer_node, events, text);
}

/// A text that comes in whole while another is being applied waits, and is handed
/// over when the other is confirmed; the peer hears of the confirmation first.
pub proof fn law_newest_text_follows_the_confirmation(
    state: ClipboardView,
    transfer: crate::protocol::clipboard::TextView,
    applied: crate::protocol::clipboard::GenerationView,
)
    requires
        state.is_valid(),
        state.pending_generation() == Some(applied),
        transfer.generation.owner == state.peer_node,
        transfer.generation.sequence > state.highest_remote,
        vstd::utf8::encode_utf8(transfer.text).len() <= 0x10_0000,
    ensures
        ({
            let offer = crate::protocol::clipboard::OfferView {
                generation: transfer.generation,
                text_bytes: vstd::utf8::encode_utf8(transfer.text).len() as u32,
                digest: crate::digest::sha256_of(vstd::utf8::encode_utf8(transfer.text)),
            };
            let offered = step(
                state,
                ClipboardEvent::Control(
                    crate::protocol::clipboard::ControlView::Offered(offer),
                ),
            );
            let received = step(offered.state, ClipboardEvent::Transfer(transfer));
            let confirmed = step(
                received.state,
                ClipboardEvent::Confirmation { generation: applied },
            );
            &&& offered.outcome matches Ok(actions) && actions.len() == 0
            &&& received.outcome matches Ok(actions) && actions.len() == 0
            &&& received.state.pending_generation() == Some(applied)
            &&& confirmed.outcome matches Ok(actions) && actions.len() == 2 && actions[0]
                == ActionView::SendControl(
                crate::protocol::clipboard::ControlView::Applied { generation: applied },
            ) && actions[1] == ActionView::ApplyRemote(transfer)
            &&& confirmed.state.pending_generation() == Some(transfer.generation)
        }),
{
}

/// A second offer or text of a generation that differs from the first is refused.
pub proof fn law_conflicts_are_refused(
    state: ClipboardView,
    offer: crate::protocol::clipboard::OfferView,
    other: crate::protocol::clipboard::OfferView,
    text: crate::protocol::clipboard::TextView,
    changed: crate::protocol::clipboard::TextView,
)
    requires
        state.is_valid(),
        offer.generation.owner == state.peer_node,
        offer.generation.sequence > state.highest_remote,
        other.generation == offer.generation,
        other != offer,
        text.generation == offer.generation,
        changed.generation == offer.generation,
        changed != text,
    ensures
        ({
            let offered = step(
                state,
                ClipboardEvent::Control(
                    crate::protocol::clipboard::ControlView::Offered(offer),
                ),
            ).state;
            let received = step(state, ClipboardEvent::Transfer(text)).state;
            &&& step(
                offered,
                ClipboardEvent::Control(
                    crate::protocol::clipboard::ControlView::Offered(other),
                ),
            ).outcome == Err::<Seq<ActionView>, ErrorView>(
                ErrorView::ConflictingOffer(offer.generation),
            )
            &&& step(received, ClipboardEvent::Transfer(changed)).outcome == Err::<
                Seq<ActionView>,
                ErrorView,
            >(ErrorView::ConflictingTransfer(offer.generation))
        }),
{
}

/// The peer's confirmation settles the local changes up to the one it names: a
/// newer one stays pending. One that was never sent, or belongs to another node, is
/// refused and changes nothing.
pub proof fn law_confirmations_settle_local_changes(
    state: ClipboardView,
    generation: crate::protocol::clipboard::GenerationView,
)
    requires
        state.is_valid(),
    ensures
        ({
            let result = step(
                state,
                ClipboardEvent::Control(
                    crate::protocol::clipboard::ControlView::Applied { generation },
                ),
            );
            let taken = generation.owner == state.local_node && generation.sequence
                <= state.last_sent;
            &&& taken <==> result.outcome is Ok
            &&& !taken ==> result.state == state
            &&& taken ==> {
                &&& result.outcome->Ok_0.len() == 0
                &&& result.state.last_acknowledged >= generation.sequence
                &&& result.state.last_acknowledged >= state.last_acknowledged
                &&& result.state.last_acknowledged == generation.sequence
                    || result.state.last_acknowledged == state.last_acknowledged
                &&& result.state.pending_local is Some <==> (state.pending_local matches Some(
                    pending,
                ) && pending.sequence > generation.sequence)
                &&& result.state.pending_local is Some ==> result.state.pending_local
                    == state.pending_local
            }
        }),
{
}

} // verus!
