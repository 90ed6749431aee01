//! What holds of running sessions.

use vstd::prelude::*;

use crate::config::EdgePosition;
use crate::domain::input::InputEvent;
use crate::domain::topology::Edge;
use crate::platform::geometry::DesktopGeometry;

verus! {

/// Input that was given back is at the local desktop, or the session ends because
/// no focus can be numbered any more.
proof fn lemma_return_leads_home(state: crate::runtime::controller::ControllerRuntimeView)
    ensures
        ({
            let step = crate::runtime::controller::moved(
                state,
                crate::session::controller::return_step(state.controller),
            );
            match step.outcome {
                Ok(_) => step.state.controller.focus == state.controller.local_node
                    && step.state.peers == state.peers && step.state.pending == state.pending,
                Err(fault) => fault == crate::runtime::event::RuntimeFault::Controller(
                    crate::session::controller::ErrorView::FocusEpochExhausted,
                ),
            }
        }),
{
}

/// A peer that went away is not connected and does not have the focus.
pub proof fn law_departed_peers_lose_the_focus(
    state: crate::runtime::controller::ControllerRuntimeView,
    peer: Seq<char>,
    session_id: u128,
    reason: Seq<char>,
)
    requires
        crate::runtime::peers::is_active(state.peers, peer, session_id),
        crate::session::roster::is_sorted(crate::runtime::peers::names(state.peers)),
        peer != state.controller.local_node,
    ensures
        ({
            let step = crate::runtime::controller::departure_step(state, peer, session_id, reason);
            step.outcome is Ok ==> {
                &&& step.state.controller.focus != peer
                &&& !crate::runtime::peers::is_connected(step.state.peers, peer)
            }
        }),
{
    crate::runtime::peers::lemma_place_from(state.peers, peer, 0);
    let place = crate::runtime::peers::place_of(state.peers, peer)->0;
    let left = state.peers.remove(place);
    let gone = crate::runtime::controller::ControllerRuntimeView { peers: left, ..state };
    lemma_return_leads_home(gone);
    crate::runtime::peers::lemma_place_from(left, peer, 0);
    if crate::runtime::peers::is_connected(left, peer) {
        let again = crate::runtime::peers::place_of(left, peer)->0;
        let before = if again < place {
            again
        } else {
            again + 1
        };
        assert(left[again] == state.peers[before]);
        let names = crate::runtime::peers::names(state.peers);
        assert(names[before] == peer && names[place] == peer);
        crate::session::roster::lemma_precedes_is_irreflexive(peer);
        if before < place {
            assert(crate::session::roster::precedes(names[before], names[place]));
        } else {
            assert(crate::session::roster::precedes(names[place], names[before]));
        }
    }
}

/// What belongs to a session that is over changes nothing.
pub proof fn law_old_connections_are_ignored(
    state: crate::runtime::controller::ControllerRuntimeView,
    peer: Seq<char>,
    session_id: u128,
    reason: Seq<char>,
    transfer: crate::protocol::clipboard::TextView,
)
    requires
        !crate::runtime::peers::is_active(state.peers, peer, session_id),
    ensures
        crate::runtime::controller::departure_step(state, peer, session_id, reason)
            == crate::runtime::controller::done(state, Seq::empty()),
        crate::runtime::controller::transfer_step(state, peer, session_id, transfer)
            == crate::runtime::controller::done(state, Seq::empty()),
        crate::runtime::controller::stream_failure_step(state, peer, session_id, reason)
            == crate::runtime::controller::done(state, Seq::empty()),
{
}

/// The emergency shortcut gives the input back to the local desktop and forgets a
/// crossing that waits, whoever has the focus.
pub proof fn law_the_emergency_shortcut_returns_the_input(
    state: crate::runtime::controller::ControllerRuntimeView,
    event: InputEvent,
)
    requires
        state.shortcut.is_completed_by(event),
    ensures
        ({
            let step = crate::runtime::controller::captured_step(state, event);
            match step.outcome {
                Ok(_) => step.state.controller.focus == state.controller.local_node
                    && step.state.pending is None,
                Err(fault) => fault == crate::runtime::event::RuntimeFault::Controller(
                    crate::session::controller::ErrorView::FocusEpochExhausted,
                ),
            }
        }),
{
    let seen = crate::runtime::controller::ControllerRuntimeView {
        shortcut: state.shortcut.after(event),
        pending: None,
        ..state
    };
    lemma_return_leads_home(seen);
}

/// Messages of the controller session go to connected peers only.
pub proof fn law_messages_go_to_connected_peers(
    peers: Seq<crate::runtime::peers::PeerView>,
    actions: Seq<crate::session::controller::ActionView>,
)
    ensures
        forall|i: int|
            0 <= i < crate::runtime::controller::delivered(peers, actions).len() ==> match (
            #[trigger] crate::runtime::controller::delivered(peers, actions)[i]) {
                crate::runtime::effect::EffectView::Send { peer, message } => {
                    crate::runtime::peers::is_connected(peers, peer)
                },
                _ => true,
            },
    decreases actions.len(),
{
    if actions.len() > 0 {
        law_messages_go_to_connected_peers(peers, actions.drop_last());
        let earlier = crate::runtime::controller::delivered(peers, actions.drop_last());
        let all = crate::runtime::controller::delivered(peers, actions);
        assert forall|i: int| 0 <= i < all.len() implies match (#[trigger] all[i]) {
            crate::runtime::effect::EffectView::Send { peer, message } => {
                crate::runtime::peers::is_connected(peers, peer)
            },
            _ => true,
        } by {
            if i < earlier.len() {
                assert(all[i] == earlier[i]);
            }
        }
    }
}

/// An edge is crossed only where that is allowed and leads to the desktop of a
/// connected peer. Everywhere else the focus stays, and the capture is let go.
pub proof fn law_crossings_lead_to_connected_desktops(
    state: crate::runtime::controller::ControllerRuntimeView,
    edge: Edge,
    position: Option<EdgePosition>,
    now_millis: u64,
)
    ensures
        ({
            let step = crate::runtime::controller::crossing_step(
                state,
                edge,
                position,
                now_millis,
            );
            let target = crate::runtime::activation::target_of(
                state.controller.screens,
                state.controller.local_node,
                edge,
                position,
            );
            let open = state.behavior.is_allowed(
                edge,
                crate::runtime::controller::crossing_units(position),
            ) && target is Some && crate::runtime::peers::is_connected(
                state.peers,
                (target->Some_0).0,
            );
            !open ==> step.state == state && step.outcome is Ok && step.outcome->Ok_0.len() > 0
                && step.outcome->Ok_0[0] == crate::runtime::effect::EffectView::ReleaseCapture
        }),
{
}

/// What an agent tells of being controlled is so.
pub open spec fn is_told_truly(state: crate::runtime::agent::AgentRuntimeView) -> bool {
    state.controlled == (state.agent.active_epoch is Some)
}

/// Messages wait exactly while input is being injected.
pub open spec fn waits_rightly(state: crate::runtime::agent::AgentRuntimeView) -> bool {
    state.application_pending == (state.agent.pending is Some)
}

/// What an agent tells of being controlled stays so, whatever happens.
pub proof fn law_agents_tell_truly_who_controls_them(
    state: crate::runtime::agent::AgentRuntimeView,
    message: crate::protocol::message::SessionView,
    geometry: DesktopGeometry,
    generation: u64,
    sequence: u64,
)
    requires
        is_told_truly(state),
    ensures
        crate::runtime::agent::input_message_step(state, message).outcome is Ok ==> is_told_truly(
            crate::runtime::agent::input_message_step(state, message).state,
        ),
        is_told_truly(crate::runtime::agent::desktop_step(state, geometry).state),
        is_told_truly(crate::runtime::agent::injected_step(state, generation, sequence).state),
{
}

/// An agent that takes messages only when it may waits exactly while input is
/// being injected, and takes one batch at a time.
pub proof fn law_agents_take_one_batch_at_a_time(
    state: crate::runtime::agent::AgentRuntimeView,
    message: crate::protocol::message::SessionView,
    geometry: DesktopGeometry,
    generation: u64,
    sequence: u64,
)
    requires
        waits_rightly(state),
    ensures
        !state.application_pending && crate::runtime::agent::input_message_step(
            state,
            message,
        ).outcome is Ok ==> waits_rightly(
            crate::runtime::agent::input_message_step(state, message).state,
        ),
        waits_rightly(crate::runtime::agent::desktop_step(state, geometry).state),
        crate::runtime::agent::injected_step(state, generation, sequence).outcome is Ok
            ==> waits_rightly(
            crate::runtime::agent::injected_step(state, generation, sequence).state,
        ),
{
    let step = crate::session::agent::message_step(state.agent, message);
    if let Ok(actions) = step.outcome {
        if !state.application_pending {
            if step.state.pending is Some {
                assert(actions[0] is ApplyInput);
                assert(crate::runtime::agent::injects(actions));
            } else {
                assert forall|i: int| 0 <= i < actions.len() implies !(
                #[trigger] actions[i] is ApplyInput) by {
                }
            }
        }
    }
}

/// An agent whose desktop changed is controlled no more, has released its input
/// and has told the controller of the new desktop.
pub proof fn law_changed_desktops_end_the_control(
    state: crate::runtime::agent::AgentRuntimeView,
    geometry: DesktopGeometry,
)
    requires
        geometry != state.geometry,
    ensures
        ({
            let step = crate::runtime::agent::desktop_step(state, geometry);
            let effects = step.outcome->Ok_0;
            &&& step.outcome is Ok
            &&& step.state.agent.active_epoch is None
            &&& !step.state.controlled
            &&& step.state.geometry == geometry
            &&& effects.len() >= 2
            &&& effects[0] == crate::runtime::agent::AgentEffectView::ReleaseInput
            &&& effects[1] == crate::runtime::agent::display_report(geometry)
        }),
{
    let actions = seq![crate::session::agent::ActionView::ReleaseAllInput];
    assert(actions.drop_last() =~= Seq::<crate::session::agent::ActionView>::empty());
    reveal_with_fuel(crate::runtime::agent::agent_effects, 2);
    assert(crate::runtime::agent::agent_effects(actions) =~= seq![
        crate::runtime::agent::AgentEffectView::ReleaseInput,
    ]);
}

/// The attempts to reach a controller end: there are as many delays in a row as
/// the policy has attempts.
pub proof fn law_reconnects_end(reconnects: crate::runtime::agent::ReconnectsView, count: nat)
    requires
        reconnects.attempt == 0,
    ensures
        attempts_after(reconnects, count) == crate::platform::geometry::least(
            count as int,
            u32::MAX as int,
        ),
        count >= reconnects.policy.maximum_attempts ==> attempts_after(reconnects, count)
            >= reconnects.policy.maximum_attempts,
    decreases count,
{
    if count > 0 {
        law_reconnects_end(reconnects, (count - 1) as nat);
    }
}

/// The count of attempts after this many delays in a row.
pub open spec fn attempts_after(
    reconnects: crate::runtime::agent::ReconnectsView,
    count: nat,
) -> u32
    decreases count,
{
    if count == 0 {
        reconnects.attempt
    } else {
        crate::runtime::agent::one_more(attempts_after(reconnects, (count - 1) as nat))
    }
}

/// A controller can start exactly where every other desktop of its arrangement
/// belongs to a trusted node and there is such a desktop.
pub proof fn law_sessions_start_among_trusted_nodes(
    node: Seq<char>,
    listen: Seq<char>,
    screens: Seq<crate::domain::arrangement::PlacementView>,
    edge_behavior: crate::config::EdgeBehavior,
    trusted: Seq<crate::identity::store::PeerView>,
)
    ensures
        crate::runtime::event::trust_fault(
            crate::config::ConfigView {
                node,
                role: crate::config::RoleView::Controller { listen, screens, edge_behavior },
            },
            trusted,
        ) is None <==> {
            &&& forall|i: int|
                0 <= i < screens.len() ==> (#[trigger] screens[i]).node == node || is_trusted(
                    trusted,
                    screens[i].node,
                )
            &&& exists|i: int| 0 <= i < screens.len() && (#[trigger] screens[i]).node != node
        },
{
    lemma_first_untrusted(screens, node, trusted, 0);
}

/// One of the trusted peers is this node.
pub open spec fn is_trusted(
    trusted: Seq<crate::identity::store::PeerView>,
    node: Seq<char>,
) -> bool {
    exists|i: int| 0 <= i < trusted.len() && (#[trigger] trusted[i]).node == node
}

proof fn lemma_first_untrusted(
    screens: Seq<crate::domain::arrangement::PlacementView>,
    node: Seq<char>,
    trusted: Seq<crate::identity::store::PeerView>,
    from: int,
)
    requires
        0 <= from <= screens.len(),
    ensures
        match crate::runtime::event::first_untrusted(screens, node, trusted, from) {
            Some(other) => other != node && !is_trusted(trusted, other) && exists|i: int|
                from <= i < screens.len() && (#[trigger] screens[i]).node == other,
            None => forall|i: int|
                from <= i < screens.len() ==> (#[trigger] screens[i]).node == node || is_trusted(
                    trusted,
                    screens[i].node,
                ),
        },
    decreases screens.len() - from,
{
    if from < screens.len() {
        lemma_first_untrusted(screens, node, trusted, from + 1);
        assert(screens[from].node == screens[from].node);
    }
}

/// A node that keeps a controller from starting is one of the arrangement, another
/// than its own, and not trusted.
pub proof fn law_untrusted_nodes_are_named(
    node: Seq<char>,
    listen: Seq<char>,
    screens: Seq<crate::domain::arrangement::PlacementView>,
    edge_behavior: crate::config::EdgeBehavior,
    trusted: Seq<crate::identity::store::PeerView>,
)
    ensures
        crate::runtime::event::trust_fault(
            crate::config::ConfigView {
                node,
                role: crate::config::RoleView::Controller { listen, screens, edge_behavior },
            },
            trusted,
        ) matches Some(crate::runtime::event::StartFault::UntrustedPeer(other)) ==> other != node
            && !is_trusted(trusted, other) && exists|i: int|
            0 <= i < screens.len() && (#[trigger] screens[i]).node == other,
{
    lemma_first_untrusted(screens, node, trusted, 0);
}

/// An agent can start exactly where its controller is trusted.
pub proof fn law_agents_start_with_a_trusted_controller(
    node: Seq<char>,
    controller_node: Seq<char>,
    controller: Seq<char>,
    layout: crate::domain::display::LayoutView,
    trusted: Seq<crate::identity::store::PeerView>,
)
    ensures
        ({
            let fault = crate::runtime::event::trust_fault(
                crate::config::ConfigView {
                    node,
                    role: crate::config::RoleView::Agent { controller_node, controller, layout },
                },
                trusted,
            );
            &&& fault is None <==> is_trusted(trusted, controller_node)
            &&& fault is Some ==> fault == Some(
                crate::runtime::event::StartFault::UntrustedPeer(controller_node),
            )
        }),
{
}

/// While no connection stands, a new desktop is taken over, a service that is ready
/// is told, and one that fails or stops ends the waiting.
pub proof fn law_waiting_agents_follow_their_desktop(
    geometry: DesktopGeometry,
    event: crate::platform::service::InjectionServiceEvent,
)
    ensures
        ({
            let outcome = crate::runtime::native::waiting_step(geometry, event);
            &&& outcome is Err <==> event is Failed || event is Stopped
            &&& outcome matches Ok((after, told)) ==> {
                &&& event matches crate::platform::service::InjectionServiceEvent::DesktopChanged(
                    changed,
                ) ==> after == changed
                &&& !(event is DesktopChanged) ==> after == geometry
                &&& told is Some <==> event is Ready
                &&& told matches Some(news) ==> (event
                    matches crate::platform::service::InjectionServiceEvent::Ready { backend }
                    && news == crate::runtime::event::EventView::NativeReady { backend })
            }
        }),
{
}

} // verus!
