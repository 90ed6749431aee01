//! How clipboard texts pass through running sessions.

use vstd::prelude::*;

use crate::protocol::clipboard::{ControlView, TextView};
use crate::protocol::message::SessionView;
use crate::runtime::agent::{AgentEffectView, AgentRuntimeView};
use crate::runtime::applications::ApplicationsView;
use crate::runtime::controller::{ClipboardEventView, ControllerRuntimeView};
use crate::runtime::effect::EffectView;
use crate::runtime::event::{EventView, RuntimeFault};
use crate::runtime::peers::PeerView;
use crate::session::clipboard::{ActionView, ClipboardStep, ClipboardView};

verus! {

/// Texts are handed to the native clipboard one at a time and in the order in which
/// they came; a text that comes later changes nothing for those before it.
pub proof fn law_texts_wait_their_turn(
    applications: ApplicationsView,
    peer: Seq<char>,
    transfer: TextView,
)
    ensures
        ({
            let longer = applications.with(peer, transfer);
            let next = longer.started();
            &&& applications.pending is Some ==> next == longer && longer.pending
                == applications.pending
            &&& applications.pending is None && applications.queued.len() == 0 ==> next.pending
                == Some((peer, transfer.generation)) && next.queued.len() == 0
            &&& applications.pending is None && applications.queued.len() > 0 ==> next.pending
                == applications.started().pending && next.queued
                == applications.started().queued.push((peer, transfer)) && next.pending is Some
            &&& longer.queued.len() == applications.queued.len() + 1
        }),
{
    let longer = applications.with(peer, transfer);
    if applications.pending is None && applications.queued.len() > 0 {
        assert(longer.started().queued =~= applications.started().queued.push((peer, transfer)));
    }
}

/// Of a peer whose texts are dropped none waits, and all others wait as before.
pub proof fn law_dropped_peers_wait_no_more(
    applications: ApplicationsView,
    peer: Seq<char>,
    entry: (Seq<char>, TextView),
)
    ensures
        applications.without(peer).queued.contains(entry) <==> applications.queued.contains(entry)
            && entry.0 != peer,
        applications.without(peer).pending == applications.pending,
{
    broadcast use vstd::seq_lib::group_filter_ensures;
    broadcast use vstd::seq::Seq::lemma_filter_contains_rev;

    let queued = applications.queued;
    let left = applications.without(peer).queued;
    if left.contains(entry) {
        let i = choose|i: int| 0 <= i < left.len() && left[i] == entry;
        assert(left[i].0 != peer);
    }
    if queued.contains(entry) && entry.0 != peer {
        let i = choose|i: int| 0 <= i < queued.len() && queued[i] == entry;
        assert(left.contains(queued[i]));
    }
}

/// What a controller sends for an action of a clipboard session.
pub open spec fn is_sent_to(peer: Seq<char>, action: ActionView, effect: EffectView) -> bool {
    match action {
        ActionView::SendControl(control) => effect == (EffectView::Send {
            peer,
            message: SessionView::Clipboard(control),
        }),
        ActionView::SendTransfer(transfer) => effect == (EffectView::Transfer { peer, transfer }),
        ActionView::ApplyRemote(transfer) => false,
    }
}

/// What an agent sends for an action of the clipboard session.
pub open spec fn is_sent_back(action: ActionView, effect: AgentEffectView) -> bool {
    match action {
        ActionView::SendControl(control) => effect == AgentEffectView::Send(
            SessionView::Clipboard(control),
        ),
        ActionView::SendTransfer(transfer) => effect == AgentEffectView::Transfer(transfer),
        ActionView::ApplyRemote(transfer) => false,
    }
}

/// Every message and text of a clipboard session goes to its peer, and nothing
/// else does.
pub proof fn law_clipboard_messages_go_to_the_peer(
    peer: Seq<char>,
    actions: Seq<ActionView>,
    action: ActionView,
)
    ensures
        ({
            let effects = crate::runtime::controller::clipboard_effects(peer, actions);
            &&& actions.contains(action) && !(action is ApplyRemote) ==> exists|k: int|
                0 <= k < effects.len() && is_sent_to(peer, action, #[trigger] effects[k])
            &&& forall|k: int|
                0 <= k < effects.len() ==> is_for(peer, actions, #[trigger] effects[k])
        }),
    decreases actions.len(),
{
    if actions.len() > 0 {
        let earlier = actions.drop_last();
        law_clipboard_messages_go_to_the_peer(peer, earlier, action);
        let before = crate::runtime::controller::clipboard_effects(peer, earlier);
        let effects = crate::runtime::controller::clipboard_effects(peer, actions);
        assert forall|k: int| 0 <= k < effects.len() implies is_for(
            peer,
            actions,
            #[trigger] effects[k],
        ) by {
            if k < before.len() {
                assert(effects[k] == before[k]);
                let i = choose|i: int|
                    0 <= i < earlier.len() && is_sent_to(peer, #[trigger] earlier[i], before[k]);
                assert(is_sent_to(peer, actions[i], effects[k]));
            } else {
                assert(is_sent_to(peer, actions[actions.len() - 1], effects[k]));
            }
        }
        if actions.contains(action) && !(action is ApplyRemote) {
            if action == actions.last() {
                assert(is_sent_to(peer, action, effects[effects.len() - 1]));
            } else {
                let i = choose|i: int| 0 <= i < actions.len() && actions[i] == action;
                assert(earlier[i] == action);
                let k = choose|k: int|
                    0 <= k < before.len() && is_sent_to(peer, action, #[trigger] before[k]);
                assert(effects[k] == before[k]);
            }
        }
    }
}

/// One of the actions asks for this.
pub open spec fn is_for(peer: Seq<char>, actions: Seq<ActionView>, effect: EffectView) -> bool {
    exists|i: int| 0 <= i < actions.len() && is_sent_to(peer, #[trigger] actions[i], effect)
}

/// The same holds of an agent.
pub proof fn law_clipboard_messages_go_back(actions: Seq<ActionView>, action: ActionView)
    ensures
        ({
            let effects = crate::runtime::agent::clipboard_effects(actions);
            &&& actions.contains(action) && !(action is ApplyRemote) ==> exists|k: int|
                0 <= k < effects.len() && is_sent_back(action, #[trigger] effects[k])
            &&& forall|k: int|
                0 <= k < effects.len() ==> is_for_the_controller(actions, #[trigger] effects[k])
        }),
    decreases actions.len(),
{
    if actions.len() > 0 {
        let earlier = actions.drop_last();
        law_clipboard_messages_go_back(earlier, action);
        let before = crate::runtime::agent::clipboard_effects(earlier);
        let effects = crate::runtime::agent::clipboard_effects(actions);
        assert forall|k: int| 0 <= k < effects.len() implies is_for_the_controller(
            actions,
            #[trigger] effects[k],
        ) by {
            if k < before.len() {
                assert(effects[k] == before[k]);
                let i = choose|i: int|
                    0 <= i < earlier.len() && is_sent_back(#[trigger] earlier[i], before[k]);
                assert(is_sent_back(actions[i], effects[k]));
            } else {
                assert(is_sent_back(actions[actions.len() - 1], effects[k]));
            }
        }
        if actions.contains(action) && !(action is ApplyRemote) {
            if action == actions.last() {
                assert(is_sent_back(action, effects[effects.len() - 1]));
            } else {
                let i = choose|i: int| 0 <= i < actions.len() && actions[i] == action;
                assert(earlier[i] == action);
                let k = choose|k: int|
                    0 <= k < before.len() && is_sent_back(action, #[trigger] before[k]);
                assert(effects[k] == before[k]);
            }
        }
    }
}

/// One of the actions asks for this.
pub open spec fn is_for_the_controller(
    actions: Seq<ActionView>,
    effect: AgentEffectView,
) -> bool {
    exists|i: int| 0 <= i < actions.len() && is_sent_back(#[trigger] actions[i], effect)
}

/// Every text that a clipboard session wants applied waits behind those that wait
/// already, under the peer that it came from.
pub proof fn law_texts_to_apply_wait(
    applications: ApplicationsView,
    peer: Seq<char>,
    actions: Seq<ActionView>,
    transfer: TextView,
)
    ensures
        ({
            let hosted = crate::runtime::controller::queued_after(applications, peer, actions);
            let own = crate::runtime::agent::queued_after(applications, actions);
            let count = applications.queued.len() as int;
            &&& hosted.pending == applications.pending && own.pending == applications.pending
            &&& hosted.queued.len() >= count && own.queued.len() >= count
            &&& forall|i: int|
                0 <= i < count ==> #[trigger] hosted.queued[i] == applications.queued[i]
            &&& forall|i: int|
                0 <= i < count ==> #[trigger] own.queued[i] == applications.queued[i]
            &&& hosted.queued.skip(count).contains((peer, transfer)) <==> actions.contains(
                ActionView::ApplyRemote(transfer),
            )
            &&& own.queued.skip(count).contains((transfer.generation.owner, transfer))
                <==> actions.contains(ActionView::ApplyRemote(transfer))
        }),
    decreases actions.len(),
{
    let count = applications.queued.len() as int;
    let hosted = crate::runtime::controller::queued_after(applications, peer, actions);
    let own = crate::runtime::agent::queued_after(applications, actions);
    if actions.len() == 0 {
        assert(hosted.queued.skip(count).len() == 0);
        assert(own.queued.skip(count).len() == 0);
    } else {
        let earlier = actions.drop_last();
        law_texts_to_apply_wait(applications, peer, earlier, transfer);
        let before = crate::runtime::controller::queued_after(applications, peer, earlier);
        let mine = crate::runtime::agent::queued_after(applications, earlier);
        assert(actions =~= earlier.push(actions.last()));
        vstd::seq_lib::lemma_seq_contains_after_push(
            earlier,
            actions.last(),
            ActionView::ApplyRemote(transfer),
        );
        if let ActionView::ApplyRemote(given) = actions.last() {
            assert(hosted.queued.skip(count) =~= before.queued.skip(count).push((peer, given)));
            vstd::seq_lib::lemma_seq_contains_after_push(
                before.queued.skip(count),
                (peer, given),
                (peer, transfer),
            );
            let owner = given.generation.owner;
            assert(own.queued.skip(count) =~= mine.queued.skip(count).push((owner, given)));
            vstd::seq_lib::lemma_seq_contains_after_push(
                mine.queued.skip(count),
                (owner, given),
                (transfer.generation.owner, transfer),
            );
        }
    }
}

/// What a controlling session says of its clipboards is settled: no text waits
/// while the native clipboard could take one.
pub open spec fn is_settled(applications: ApplicationsView) -> bool {
    applications.pending is Some || applications.queued.len() == 0
}

/// After the actions of a clipboard session no text waits while the native
/// clipboard could take one, or there is no native clipboard and the session ends.
/// The native clipboard is asked exactly where a text begins to be applied.
pub proof fn law_waiting_texts_are_handed_over(
    state: ControllerRuntimeView,
    peer: Seq<char>,
    actions: Seq<ActionView>,
    text: Seq<char>,
)
    ensures
        ({
            let step = crate::runtime::controller::clipboard_step(state, peer, actions);
            &&& step.outcome is Ok ==> is_settled(step.state.applications)
            &&& step.outcome is Err ==> !state.clipboard_available
            &&& step.outcome matches Ok(effects) ==> {
                let begins = state.applications.pending is None
                    && step.state.applications.pending is Some;
                &&& begins <==> effects.len() > 0 && effects.last() is ApplyClipboard
                &&& effects.contains(EffectView::ApplyClipboard { text }) ==> begins
                &&& state.applications.pending is Some ==> step.state.applications.pending
                    == state.applications.pending
                &&& step.state.controller == state.controller && step.state.peers == state.peers
            }
        }),
{
    let sent = crate::runtime::controller::clipboard_effects(peer, actions);
    assert forall|k: int| 0 <= k < sent.len() implies !(#[trigger] sent[k] is ApplyClipboard) by {
        law_clipboard_messages_go_to_the_peer(peer, actions, actions[0]);
        assert(is_for(peer, actions, sent[k]));
    }
    law_texts_to_apply_wait(state.applications, peer, actions, arbitrary());
    let step = crate::runtime::controller::clipboard_step(state, peer, actions);
    if let Ok(effects) = step.outcome {
        let waiting = crate::runtime::controller::queued_after(state.applications, peer, actions);
        if waiting.is_waiting() {
            assert(effects.last() is ApplyClipboard);
        } else {
            assert(effects =~= sent);
        }
    }
}

/// The text that the native clipboard is handed is the one that waited longest.
pub proof fn law_the_oldest_text_is_applied(state: ControllerRuntimeView, own: AgentRuntimeView)
    ensures
        ({
            let step = crate::runtime::controller::application_step(state);
            let queued = state.applications.queued;
            state.applications.pending is None && queued.len() > 0 && state.clipboard_available
                ==> step.outcome == Ok::<Seq<EffectView>, RuntimeFault>(
                seq![EffectView::ApplyClipboard { text: queued[0].1.text }],
            ) && step.state.applications.pending == Some((queued[0].0, queued[0].1.generation))
                && step.state.applications.queued == queued.skip(1)
        }),
        ({
            let step = crate::runtime::agent::application_step(own);
            let queued = own.applications.queued;
            own.applications.pending is None && queued.len() > 0 && own.clipboard_available
                ==> step.outcome == Ok::<Seq<AgentEffectView>, RuntimeFault>(
                seq![AgentEffectView::ApplyClipboard { text: queued[0].1.text }],
            ) && step.state.applications.pending == Some((queued[0].0, queued[0].1.generation))
                && step.state.applications.queued == queued.skip(1)
        }),
{
    if state.applications.queued.len() > 0 {
        assert(state.applications.queued.drop_first() =~= state.applications.queued.skip(1));
    }
    if own.applications.queued.len() > 0 {
        assert(own.applications.queued.drop_first() =~= own.applications.queued.skip(1));
    }
}

/// A local change of the clipboard reaches the clipboard session of every peer that
/// has one, from `from` on, and no peer else.
pub proof fn law_local_changes_reach_every_peer(
    state: ControllerRuntimeView,
    text: Seq<char>,
    from: int,
    at: int,
    action: ActionView,
)
    requires
        0 <= from <= state.peers.len(),
        0 <= at < state.peers.len(),
    ensures
        ({
            let step = crate::runtime::controller::change_step(
                state,
                text,
                from,
                (state.peers.len() - from) as nat,
            );
            step.outcome matches Ok(effects) ==> {
                &&& step.state.peers.len() == state.peers.len()
                &&& step.state.peers[at].node == state.peers[at].node
                &&& step.state.peers[at].session_id == state.peers[at].session_id
                &&& step.state.controller == state.controller
                &&& match state.peers[at].clipboard {
                    None => step.state.peers[at].clipboard is None,
                    Some(session) => if at < from {
                        step.state.peers[at].clipboard == Some(session)
                    } else {
                        let heard = crate::session::clipboard::local_step(session, text);
                        &&& heard.outcome is Ok
                        &&& step.state.peers[at].clipboard == Some(heard.state)
                        &&& heard.outcome->Ok_0.contains(action) && !(action is ApplyRemote)
                            ==> is_done_for(state.peers[at].node, action, effects)
                    },
                }
            }
        }),
    decreases state.peers.len() - from,
{
    if from < state.peers.len() {
        let remaining = (state.peers.len() - from) as nat;
        let step = crate::runtime::controller::change_step(state, text, from, remaining);
        let first = match state.peers[from].clipboard {
            None => crate::runtime::controller::done(state, Seq::empty()),
            Some(session) => crate::runtime::controller::session_step(
                state,
                from,
                crate::session::clipboard::local_step(session, text),
            ),
        };
        if first.outcome is Ok && step.outcome is Ok {
            law_local_changes_reach_every_peer(first.state, text, from + 1, at, action);
            let rest = crate::runtime::controller::change_step(
                first.state,
                text,
                from + 1,
                (remaining - 1) as nat,
            );
            let effects = step.outcome->Ok_0;
            let begun = first.outcome->Ok_0;
            let more = rest.outcome->Ok_0;
            assert(effects == begun + more);
            let node = state.peers[at].node;
            if at == from && state.peers[from].clipboard is Some {
                let session = state.peers[from].clipboard->Some_0;
                let actions = crate::session::clipboard::local_step(session, text).outcome->Ok_0;
                law_clipboard_messages_go_to_the_peer(node, actions, action);
                if actions.contains(action) && !(action is ApplyRemote) {
                    let sent = crate::runtime::controller::clipboard_effects(node, actions);
                    let k = choose|k: int|
                        0 <= k < sent.len() && is_sent_to(node, action, #[trigger] sent[k]);
                    assert(begun[k] == sent[k]);
                    assert(effects[k] == sent[k]);
                    assert(is_done_for(node, action, effects));
                }
            }
            if is_done_for(node, action, more) {
                let k = choose|k: int|
                    0 <= k < more.len() && is_sent_to(node, action, #[trigger] more[k]);
                assert(effects[begun.len() + k] == more[k]);
                assert(is_done_for(node, action, effects));
            }
        }
    }
}

/// The action is carried out for the peer.
pub open spec fn is_done_for(
    peer: Seq<char>,
    action: ActionView,
    effects: Seq<EffectView>,
) -> bool {
    exists|k: int| 0 <= k < effects.len() && is_sent_to(peer, action, #[trigger] effects[k])
}

/// A controlling session tells of a text that a peer took over once the peer says
/// so, and of one that came from a peer once the native clipboard has it.
pub proof fn law_synchronized_texts_are_told(
    state: ControllerRuntimeView,
    place: int,
    control: ControlView,
)
    requires
        0 <= place < state.peers.len(),
    ensures
        ({
            let step = crate::runtime::controller::control_step(state, place, control);
            step.outcome matches Ok(effects) ==> control is Applied ==> effects.len() > 0
                && effects.last() == EffectView::Tell(
                EventView::ClipboardSynchronized { peer: state.peers[place].node, received: false },
            )
        }),
        ({
            let step = crate::runtime::controller::confirmation_step(state);
            let at = crate::runtime::peers::place_of(
                state.peers,
                (state.applications.pending->Some_0).0,
            );
            let followed = at is Some && (state.peers[at->Some_0].clipboard is Some);
            let effects = step.outcome->Ok_0;
            &&& step.outcome is Ok ==> state.applications.pending is Some
            &&& step.outcome is Ok && followed ==> effects.len() > 0 && effects.last()
                == EffectView::Tell(
                EventView::ClipboardSynchronized {
                    peer: (state.applications.pending->Some_0).0,
                    received: true,
                },
            )
        }),
{
}

/// A peer whose stream failed has no clipboard session any more and no text
/// waiting. All other peers keep theirs, and the failure is told.
pub proof fn law_failed_streams_stop_one_clipboard(
    state: ControllerRuntimeView,
    peer: Seq<char>,
    session_id: u128,
    reason: Seq<char>,
    at: int,
    entry: (Seq<char>, TextView),
)
    requires
        crate::runtime::peers::is_active(state.peers, peer, session_id),
        crate::runtime::hosting::are_different(state.peers),
        0 <= at < state.peers.len(),
    ensures
        ({
            let step = crate::runtime::controller::stream_failure_step(
                state,
                peer,
                session_id,
                reason,
            );
            let after = step.state.peers[at];
            &&& step.outcome is Ok
            &&& step.outcome->Ok_0.len() == 1
            &&& step.outcome->Ok_0[0] matches EffectView::Tell(EventView::Error { message })
            &&& step.state.controller == state.controller
            &&& state.peers[at].node == peer ==> after.clipboard is None && after.node == peer
                && after.session_id == session_id
            &&& state.peers[at].node != peer ==> after == state.peers[at]
            &&& step.state.applications.queued.contains(entry)
                <==> state.applications.queued.contains(entry) && entry.0 != peer
        }),
{
    law_dropped_peers_wait_no_more(state.applications, peer, entry);
    crate::runtime::peers::lemma_place_from(state.peers, peer, 0);
    let place = crate::runtime::peers::place_of(state.peers, peer)->Some_0;
    if at < place {
        assert(state.peers[at].node != state.peers[place].node);
    } else if place < at {
        assert(state.peers[place].node != state.peers[at].node);
    }
}

/// Without a native clipboard nothing waits for it and none is expected. The
/// clipboard is stopped, and a failure is told first.
pub proof fn law_lost_clipboards_are_given_up(
    state: ControllerRuntimeView,
    own: AgentRuntimeView,
    reason: Seq<char>,
)
    ensures
        ({
            let failed = crate::runtime::controller::native_clipboard_step(
                state,
                ClipboardEventView::Failed { reason },
            );
            let stopped = crate::runtime::controller::native_clipboard_step(
                state,
                ClipboardEventView::Stopped,
            );
            &&& failed.state == stopped.state
            &&& !failed.state.clipboard_available
            &&& failed.state.applications.pending is None
            &&& failed.state.applications.queued.len() == 0
            &&& failed.state.controller == state.controller
            &&& failed.state.peers == state.peers
            &&& failed.outcome is Ok && failed.outcome->Ok_0.len() == 2
            &&& failed.outcome->Ok_0[0] matches EffectView::Tell(EventView::Error { message })
            &&& failed.outcome->Ok_0[1] == EffectView::StopClipboard
            &&& stopped.outcome is Ok && stopped.outcome->Ok_0.len() == 1
            &&& stopped.outcome->Ok_0[0] == EffectView::StopClipboard
        }),
        ({
            let failed = crate::runtime::agent::native_clipboard_step(
                own,
                ClipboardEventView::Failed { reason },
            );
            let stopped = crate::runtime::agent::native_clipboard_step(
                own,
                ClipboardEventView::Stopped,
            );
            &&& failed.state == stopped.state
            &&& failed.state.clipboard is None
            &&& failed.state.applications.pending is None
            &&& failed.state.applications.queued.len() == 0
            &&& failed.state.agent == own.agent
            &&& failed.outcome is Ok && failed.outcome->Ok_0.len() == 1
            &&& failed.outcome->Ok_0[0] matches AgentEffectView::Tell(
                EventView::Error { message },
            )
            &&& stopped.outcome is Ok && stopped.outcome->Ok_0.len() == 0
        }),
{
}

/// After the actions of its clipboard session no text of an agent waits while the
/// native clipboard could take one. The session goes on in its new state, and the
/// native clipboard is asked exactly where a text begins to be applied.
pub proof fn law_agents_hand_over_waiting_texts(state: AgentRuntimeView, step: ClipboardStep)
    ensures
        ({
            let next = crate::runtime::agent::session_step(state, step);
            &&& step.outcome is Err ==> next.outcome is Err
            &&& step.outcome is Ok && state.clipboard_available ==> next.outcome is Ok
            &&& next.outcome matches Ok(effects) ==> {
                let begins = state.applications.pending is None && next.state.applications.pending
                    is Some;
                &&& is_settled(next.state.applications)
                &&& next.state.clipboard == Some(step.state)
                &&& next.state.agent == state.agent
                &&& begins <==> effects.len() > 0 && effects.last() is ApplyClipboard
                &&& forall|i: int|
                    0 <= i < crate::runtime::agent::clipboard_effects(step.outcome->Ok_0).len()
                        ==> #[trigger] effects[i] == crate::runtime::agent::clipboard_effects(
                        step.outcome->Ok_0,
                    )[i]
            }
        }),
{
    if let Ok(actions) = step.outcome {
        law_texts_to_apply_wait(state.applications, Seq::empty(), actions, arbitrary());
        let sent = crate::runtime::agent::clipboard_effects(actions);
        assert forall|k: int| 0 <= k < sent.len() implies !(
        #[trigger] sent[k] is ApplyClipboard) by {
            law_clipboard_messages_go_back(actions, actions[0]);
            assert(is_for_the_controller(actions, sent[k]));
        }
        let waiting = crate::runtime::agent::queued_after(state.applications, actions);
        let next = crate::runtime::agent::session_step(state, step);
        if next.outcome is Ok && !waiting.is_waiting() {
            assert(next.outcome->Ok_0 =~= sent);
        }
    }
}

/// An agent tells of a text that the controller took over once the controller says
/// so, and of one that came from it once the native clipboard has it.
pub proof fn law_agents_tell_of_synchronized_texts(state: AgentRuntimeView, control: ControlView)
    ensures
        ({
            let step = crate::runtime::agent::control_step(state, control);
            &&& step.outcome is Ok ==> state.clipboard is Some
            &&& step.outcome matches Ok(effects) ==> control is Applied ==> effects.len() > 0
                && effects.last() == AgentEffectView::Tell(
                EventView::ClipboardSynchronized { peer: state.controller_node, received: false },
            )
        }),
        ({
            let step = crate::runtime::agent::confirmation_step(state);
            &&& step.outcome is Ok ==> state.applications.pending is Some && (
            state.applications.pending->Some_0).0 == state.controller_node
            &&& step.outcome matches Ok(effects) ==> state.clipboard is Some ==> effects.len() > 0
                && effects.last() == AgentEffectView::Tell(
                EventView::ClipboardSynchronized { peer: state.controller_node, received: true },
            )
        }),
{
}

/// A local change of the clipboard reaches the clipboard session of an agent, where
/// there is one.
pub proof fn law_agents_pass_on_local_changes(state: AgentRuntimeView, text: Seq<char>)
    ensures
        ({
            let step = crate::runtime::agent::native_clipboard_step(
                state,
                ClipboardEventView::Changed { text },
            );
            match state.clipboard {
                None => step.state == state && step.outcome == Ok::<
                    Seq<AgentEffectView>,
                    RuntimeFault,
                >(seq![]),
                Some(session) => step.outcome is Ok ==> step.state.clipboard == Some(
                    crate::session::clipboard::local_step(session, text).state,
                ),
            }
        }),
{
    if let Some(session) = state.clipboard {
        law_agents_hand_over_waiting_texts(
            state,
            crate::session::clipboard::local_step(session, text),
        );
    }
}

} // verus!
