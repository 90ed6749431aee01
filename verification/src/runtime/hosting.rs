//! What a controlling session does for its peers.

use vstd::prelude::*;

use crate::config::{EdgeBehavior, EdgePosition};
use crate::domain::arrangement::PlacementView;
use crate::domain::input::InputEvent;
use crate::domain::topology::Edge;
use crate::platform::geometry::DesktopGeometry;
use crate::protocol::message::SessionView;
use crate::runtime::controller::ControllerRuntimeView;
use crate::runtime::effect::EffectView;
use crate::runtime::event::{EventView, RuntimeFault};
use crate::runtime::peers::{is_active, is_connected, PeerView};

verus! {

/// The time that has to pass between the pointer reaching an edge and crossing it.
pub open spec fn with_delay(state: ControllerRuntimeView, delay: u32) -> ControllerRuntimeView {
    ControllerRuntimeView {
        behavior: EdgeBehavior { switch_delay_ms: delay, ..state.behavior },
        ..state
    }
}

/// A crossing with a delay does nothing before the delay has passed, and after it
/// what it does at once without a delay.
pub proof fn law_delayed_crossings_take_place_later(
    state: ControllerRuntimeView,
    edge: Edge,
    position: Option<EdgePosition>,
    now_millis: u64,
    later_millis: u64,
    delay: u32,
)
    requires
        state.pending is None,
        delay > 0,
        now_millis + delay <= u64::MAX,
    ensures
        ({
            let at_once = crate::runtime::controller::crossing_step(
                with_delay(state, 0),
                edge,
                position,
                now_millis,
            );
            let first = crate::runtime::controller::crossing_step(
                with_delay(state, delay),
                edge,
                position,
                now_millis,
            );
            let second = crate::runtime::controller::due_step(first.state, later_millis);
            if first.state.pending is None {
                first.outcome == at_once.outcome && at_once.state == with_delay(state, 0)
                    && first.state == with_delay(state, delay)
            } else {
                &&& first.outcome == Ok::<Seq<EffectView>, RuntimeFault>(seq![])
                &&& first.state.controller == state.controller
                &&& later_millis - now_millis < delay ==> second.state == first.state
                    && second.outcome == first.outcome
                &&& later_millis - now_millis >= delay ==> second.outcome == at_once.outcome
                    && second.state.controller == at_once.state.controller
                    && second.state.pending is None && second.state.peers == state.peers
            }
        }),
{
    let quick = with_delay(state, 0);
    let slow = with_delay(state, delay);
    if let Some((target, offset)) = crate::runtime::activation::target_of(
        state.controller.screens,
        state.controller.local_node,
        edge,
        position,
    ) {
        let one = crate::runtime::controller::activation_step(quick, edge, offset);
        let other = crate::runtime::controller::activation_step(slow, edge, offset);
        assert(one.outcome == other.outcome);
        assert(ControllerRuntimeView { pending: None, ..slow } == slow);
        let units = crate::runtime::controller::crossing_units(position);
        assert(quick.behavior.is_allowed(edge, units) == slow.behavior.is_allowed(edge, units));
    }
}

/// A crossing that leads to a connected desktop moves the focus there and tells it,
/// or the session ends because no focus can be numbered any more.
pub proof fn law_crossings_move_the_focus(
    state: ControllerRuntimeView,
    edge: Edge,
    position: Option<EdgePosition>,
    now_millis: u64,
    home: int,
)
    requires
        state.controller.is_valid(),
        state.controller.focus == state.controller.local_node,
        state.behavior.switch_delay_ms == 0,
        crate::runtime::crossings::are_desktops(state.controller.screens),
        0 <= home < state.controller.screens.len(),
        state.controller.screens[home].node == state.controller.local_node,
        position matches Some(place) ==> place.is_on_edge(),
        state.behavior.is_allowed(edge, crate::runtime::controller::crossing_units(position)),
        crate::runtime::activation::target_of(
            state.controller.screens,
            state.controller.local_node,
            edge,
            position,
        ) matches Some((target, _)) && is_connected(state.peers, target),
    ensures
        ({
            let step = crate::runtime::controller::crossing_step(
                state,
                edge,
                position,
                now_millis,
            );
            let target = crate::runtime::activation::target_of(
                state.controller.screens,
                state.controller.local_node,
                edge,
                position,
            )->Some_0.0;
            &&& step.outcome is Ok <==> state.controller.epoch < u64::MAX
            &&& step.outcome matches Ok(effects) ==> step.state.controller.focus == target
                && effects.len() > 0 && effects.last() == EffectView::Tell(
                EventView::FocusChanged { node: target },
            )
        }),
{
    let (target, offset) = crate::runtime::activation::target_of(
        state.controller.screens,
        state.controller.local_node,
        edge,
        position,
    )->Some_0;
    crate::runtime::crossings::law_targets_are_reached(
        state.controller.screens,
        home,
        edge,
        position,
    );
    crate::session::routing::law_activations_follow_the_crossing(state.controller, edge, offset);
}

/// Input that is captured while the pointer is at home or a crossing waits goes
/// nowhere. Otherwise it goes where the controller session routes it, and the focus
/// is told where it moved. Either way the shortcut is watched.
pub proof fn law_captured_input_is_routed(state: ControllerRuntimeView, event: InputEvent)
    requires
        !state.shortcut.is_completed_by(event),
    ensures
        ({
            let step = crate::runtime::controller::captured_step(state, event);
            let routed = crate::session::controller::input_step(state.controller, event);
            let next = step.state.controller;
            &&& step.outcome is Ok ==> step.state.shortcut == state.shortcut.after(event)
                && step.state.pending == state.pending && step.state.peers == state.peers
            &&& state.pending is Some || state.controller.focus == state.controller.local_node
                ==> step.outcome == Ok::<Seq<EffectView>, RuntimeFault>(seq![]) && next
                == state.controller
            &&& state.pending is None && state.controller.focus != state.controller.local_node ==> {
                &&& step.outcome is Ok <==> routed.outcome is Ok
                &&& step.outcome matches Ok(effects) ==> {
                    let actions = routed.outcome->Ok_0;
                    &&& next == routed.state
                    &&& effects.len() == actions.len() + if next.focus == state.controller.focus {
                        0int
                    } else {
                        1int
                    }
                    &&& next.focus != state.controller.focus ==> effects.last()
                        == EffectView::Tell(EventView::FocusChanged { node: next.focus })
                }
            }
        }),
{
    let routed = crate::session::controller::input_step(state.controller, event);
    if routed.outcome is Ok {
        law_actions_are_carried_out_in_order(state.peers, routed.outcome->Ok_0);
    }
}

/// Each action of the controller session is carried out in its turn: a message goes
/// to its peer where that is connected, and is told of where it is not.
pub proof fn law_actions_are_carried_out_in_order(
    peers: Seq<PeerView>,
    actions: Seq<crate::session::controller::ActionView>,
)
    ensures
        ({
            let effects = crate::runtime::controller::delivered(peers, actions);
            &&& effects.len() == actions.len()
            &&& forall|i: int|
                0 <= i < actions.len() ==> match #[trigger] actions[i] {
                    crate::session::controller::ActionView::Send { peer, message } => {
                        if is_connected(peers, peer) {
                            effects[i] == (EffectView::Send { peer, message })
                        } else {
                            effects[i] == EffectView::Tell(
                                EventView::Error { message: "`"@ + peer + "` is not connected"@ },
                            )
                        }
                    },
                    crate::session::controller::ActionView::ReleaseCapture => effects[i]
                        == EffectView::ReleaseCapture,
                }
        }),
    decreases actions.len(),
{
    if actions.len() > 0 {
        let earlier = actions.drop_last();
        law_actions_are_carried_out_in_order(peers, earlier);
        let effects = crate::runtime::controller::delivered(peers, actions);
        assert forall|i: int| 0 <= i < actions.len() implies match #[trigger] actions[i] {
            crate::session::controller::ActionView::Send { peer, message } => {
                if is_connected(peers, peer) {
                    effects[i] == (EffectView::Send { peer, message })
                } else {
                    effects[i] == EffectView::Tell(
                        EventView::Error { message: "`"@ + peer + "` is not connected"@ },
                    )
                }
            },
            crate::session::controller::ActionView::ReleaseCapture => effects[i]
                == EffectView::ReleaseCapture,
        } by {
            if i < earlier.len() {
                assert(earlier[i] == actions[i]);
            }
        }
    }
}

/// The peers have different nodes.
pub open spec fn are_different(peers: Seq<PeerView>) -> bool {
    forall|i: int, j: int|
        0 <= i < j < peers.len() ==> (#[trigger] peers[i]).node != (#[trigger] peers[j]).node
}

/// A node is connected in a session exactly where one of the peers says so.
pub proof fn law_peers_are_found_by_their_node(
    peers: Seq<PeerView>,
    node: Seq<char>,
    session_id: u128,
)
    requires
        are_different(peers),
    ensures
        is_active(peers, node, session_id) <==> exists|i: int|
            0 <= i < peers.len() && (#[trigger] peers[i]).node == node && peers[i].session_id
                == session_id,
        is_connected(peers, node) <==> exists|i: int|
            0 <= i < peers.len() && (#[trigger] peers[i]).node == node,
{
    crate::runtime::peers::lemma_place_from(peers, node, 0);
    if let Some(place) = crate::runtime::peers::place_of(peers, node) {
        assert(peers[place].node == node);
        assert forall|i: int| 0 <= i < peers.len() && (#[trigger] peers[i]).node == node implies i
            == place by {
            if i < place {
                assert(peers[i].node != peers[place].node);
            } else if place < i {
                assert(peers[place].node != peers[i].node);
            }
        }
    }
}

proof fn lemma_without(peers: Seq<PeerView>, place: int, node: Seq<char>, session_id: u128)
    requires
        are_different(peers),
        0 <= place < peers.len(),
    ensures
        are_different(peers.remove(place)),
        node != peers[place].node ==> is_active(peers.remove(place), node, session_id)
            == is_active(peers, node, session_id),
        node == peers[place].node ==> !is_connected(peers.remove(place), node),
{
    let left = peers.remove(place);
    assert forall|i: int, j: int| 0 <= i < j < left.len() implies (#[trigger] left[i]).node != (
    #[trigger] left[j]).node by {
        let before = if i < place {
            i
        } else {
            i + 1
        };
        let after = if j < place {
            j
        } else {
            j + 1
        };
        assert(left[i] == peers[before] && left[j] == peers[after]);
    }
    law_peers_are_found_by_their_node(peers, node, session_id);
    law_peers_are_found_by_their_node(left, node, session_id);
    assert forall|i: int| 0 <= i < left.len() implies (#[trigger] left[i]).node
        != peers[place].node by {
        if i < place {
            assert(left[i] == peers[i]);
        } else {
            assert(left[i] == peers[i + 1]);
        }
    }
    if node != peers[place].node {
        if is_active(peers, node, session_id) {
            let i = choose|i: int|
                0 <= i < peers.len() && (#[trigger] peers[i]).node == node && peers[i].session_id
                    == session_id;
            if i < place {
                assert(left[i] == peers[i]);
            } else {
                assert(left[i - 1] == peers[i]);
            }
        }
        if is_active(left, node, session_id) {
            let i = choose|i: int|
                0 <= i < left.len() && (#[trigger] left[i]).node == node && left[i].session_id
                    == session_id;
            if i < place {
                assert(left[i] == peers[i]);
            } else {
                assert(left[i] == peers[i + 1]);
            }
        }
    }
}

/// A peer that goes away is told of with the reason, without a farewell, and no
/// other peer is affected. Focus that was elsewhere stays.
pub proof fn law_departures_are_told(
    state: ControllerRuntimeView,
    peer: Seq<char>,
    session_id: u128,
    reason: Seq<char>,
    other: Seq<char>,
    other_session: u128,
)
    requires
        are_different(state.peers),
        is_active(state.peers, peer, session_id),
        other != peer,
    ensures
        ({
            let step = crate::runtime::controller::departure_step(state, peer, session_id, reason);
            &&& state.controller.focus != peer ==> step.outcome is Ok && step.state.controller
                == state.controller && step.outcome->Ok_0.len() == 2
            &&& step.outcome matches Ok(effects) ==> {
                &&& effects.len() >= 2
                &&& effects[0] == (EffectView::Dismiss { peer, farewell: false })
                &&& effects[1] == EffectView::Tell(EventView::Disconnected { peer, reason })
                &&& is_active(step.state.peers, other, other_session) == is_active(
                    state.peers,
                    other,
                    other_session,
                )
                &&& !is_connected(step.state.peers, peer)
                &&& state.controller.focus == peer ==> effects.last() == EffectView::Tell(
                    EventView::FocusChanged { node: state.controller.local_node },
                )
            }
        }),
{
    crate::runtime::peers::lemma_place_from(state.peers, peer, 0);
    let place = crate::runtime::peers::place_of(state.peers, peer)->Some_0;
    lemma_without(state.peers, place, other, other_session);
    lemma_without(state.peers, place, peer, session_id);
}

proof fn lemma_rank(peers: Seq<PeerView>, node: Seq<char>, from: int)
    requires
        0 <= from <= peers.len(),
    ensures
        from <= crate::runtime::peers::rank_from(peers, node, from) <= peers.len(),
    decreases peers.len() - from,
{
    if from < peers.len() {
        lemma_rank(peers, node, from + 1);
    }
}

/// After a peer joins it is connected in the new session, and no other peer is
/// affected.
pub proof fn law_joining_replaces_the_peer_only(
    peers: Seq<PeerView>,
    peer: PeerView,
    other: Seq<char>,
    other_session: u128,
)
    requires
        are_different(peers),
    ensures
        ({
            let after = crate::runtime::peers::joined(peers, peer);
            &&& after.contains(peer)
            &&& are_different(after)
            &&& after.len() == peers.len() + if is_connected(peers, peer.node) {
                0int
            } else {
                1int
            }
            &&& is_active(after, other, other_session) <==> if other == peer.node {
                other_session == peer.session_id
            } else {
                is_active(peers, other, other_session)
            }
        }),
{
    let node = peer.node;
    let after = crate::runtime::peers::joined(peers, peer);
    crate::runtime::peers::lemma_place_from(peers, node, 0);
    law_peers_are_found_by_their_node(peers, other, other_session);
    if let Some(place) = crate::runtime::peers::place_of(peers, node) {
        assert(after[place] == peer);
        law_peers_are_found_by_their_node(after, other, other_session);
        assert forall|i: int| 0 <= i < peers.len() && i != place implies #[trigger] after[i]
            == peers[i] && peers[i].node != node by {
            if i < place {
                assert(peers[i].node != peers[place].node);
            } else {
                assert(peers[place].node != peers[i].node);
            }
        }
        if other != node && is_active(peers, other, other_session) {
            let i = choose|i: int|
                0 <= i < peers.len() && (#[trigger] peers[i]).node == other && peers[i].session_id
                    == other_session;
            assert(after[i] == peers[i]);
        }
    } else {
        lemma_rank(peers, node, 0);
        let rank = crate::runtime::peers::rank_from(peers, node, 0);
        assert(after[rank] == peer);
        assert forall|i: int| 0 <= i < after.len() && i != rank implies #[trigger] after[i]
            == peers[if i < rank {
            i
        } else {
            i - 1
        }] by {}
        assert(are_different(after));
        law_peers_are_found_by_their_node(after, other, other_session);
        if other != node && is_active(peers, other, other_session) {
            let i = choose|i: int|
                0 <= i < peers.len() && (#[trigger] peers[i]).node == other && peers[i].session_id
                    == other_session;
            if i < rank {
                assert(after[i] == peers[i]);
            } else {
                assert(after[i + 1] == peers[i]);
            }
        }
    }
}

/// A new connection is kept exactly where its node is in the arrangement. Its
/// batches are counted afresh, its clipboard is followed where that was agreed, and
/// it is told of. Where it is not kept, nothing changes.
pub proof fn law_arrivals_are_kept_if_arranged(
    state: ControllerRuntimeView,
    info: crate::transport::handshake::InfoView,
    other: Seq<char>,
    other_session: u128,
)
    requires
        are_different(state.peers),
        crate::domain::arrangement::placement_of(state.controller.screens, info.peer) is Some
            ==> state.controller.deliveries.dom().contains(info.peer),
    ensures
        ({
            let step = crate::runtime::controller::arrival_step(state, info);
            let effects = step.outcome->Ok_0;
            let arranged = crate::domain::arrangement::placement_of(
                state.controller.screens,
                info.peer,
            ) is Some;
            &&& step.outcome is Ok
            &&& effects.len() == 2
            &&& !arranged ==> step.state == state && effects[0] == EffectView::Decline
            &&& arranged ==> {
                let fresh = step.state.controller.deliveries[info.peer];
                &&& effects[0] == (EffectView::Keep {
                    peer: info.peer,
                    session_id: info.session_id,
                    clipboard: info.negotiated_capabilities.clipboard_text,
                })
                &&& effects[1] == EffectView::Tell(
                    EventView::Connected { peer: info.peer, session_id: info.session_id },
                )
                &&& fresh.last_acknowledged == 0
                &&& fresh.last_sent == 0
                &&& forall|peer: Seq<char>|
                    peer != info.peer ==> #[trigger] step.state.controller.deliveries[peer]
                        == state.controller.deliveries[peer]
                &&& step.state.controller.focus == state.controller.focus
                &&& is_active(step.state.peers, other, other_session) <==> if other == info.peer {
                    other_session == info.session_id
                } else {
                    is_active(state.peers, other, other_session)
                }
                &&& exists|i: int|
                    0 <= i < step.state.peers.len() && (#[trigger] step.state.peers[i]).node
                        == info.peer && step.state.peers[i].clipboard is Some
                        == info.negotiated_capabilities.clipboard_text
            }
        }),
{
    let clipboard = info.negotiated_capabilities.clipboard_text;
    let peer = PeerView {
        node: info.peer,
        session_id: info.session_id,
        clipboard: if clipboard {
            Some(crate::session::clipboard::initial(state.controller.local_node, info.peer))
        } else {
            None
        },
    };
    law_joining_replaces_the_peer_only(state.peers, peer, other, other_session);
}

/// After an arrangement changed, exactly those peers stay that are part of it.
pub proof fn law_peers_outside_the_arrangement_leave(
    state: ControllerRuntimeView,
    from: int,
    effects: Seq<EffectView>,
    node: Seq<char>,
    session_id: u128,
)
    requires
        are_different(state.peers),
        0 <= from <= state.peers.len(),
        forall|i: int|
            0 <= i < from ==> crate::domain::arrangement::placement_of(
                state.controller.screens,
                (#[trigger] state.peers[i]).node,
            ) is Some,
    ensures
        ({
            let step = crate::runtime::controller::dismissal_from(state, from, effects);
            let arranged = crate::domain::arrangement::placement_of(
                state.controller.screens,
                node,
            ) is Some;
            &&& step.outcome is Ok
            &&& is_active(step.state.peers, node, session_id) <==> is_active(
                state.peers,
                node,
                session_id,
            ) && arranged
            &&& step.state.controller == state.controller
            &&& is_active(state.peers, node, session_id) && !arranged
                ==> step.outcome->Ok_0.contains(EffectView::Dismiss { peer: node, farewell: true })
            &&& forall|i: int|
                0 <= i < effects.len() ==> #[trigger] step.outcome->Ok_0[i] == effects[i]
            &&& step.outcome->Ok_0.len() >= effects.len()
        }),
    decreases state.peers.len() - from,
{
    if from < state.peers.len() {
        let peer = state.peers[from].node;
        if crate::domain::arrangement::placement_of(state.controller.screens, peer) is Some {
            law_peers_outside_the_arrangement_leave(state, from + 1, effects, node, session_id);
        } else {
            let left = ControllerRuntimeView { peers: state.peers.remove(from), ..state };
            let dismissed = EffectView::Dismiss { peer, farewell: true };
            let more = effects.push(dismissed).push(
                EffectView::Tell(
                    EventView::Disconnected { peer, reason: "Removed from the topology"@ },
                ),
            );
            lemma_without(state.peers, from, node, session_id);
            law_peers_outside_the_arrangement_leave(left, from, more, node, session_id);
            let all = crate::runtime::controller::dismissal_from(
                state,
                from,
                effects,
            ).outcome->Ok_0;
            assert(more[effects.len() as int] == dismissed);
            assert(all[effects.len() as int] == dismissed);
            assert forall|i: int| 0 <= i < effects.len() implies #[trigger] all[i]
                == effects[i] by {
                assert(more[i] == effects[i]);
            }
        }
    } else {
        crate::runtime::peers::lemma_place_from(state.peers, node, 0);
    }
}

/// Heartbeats are numbered one after the other, from 0 again after the largest
/// number, and each goes to every peer once.
pub proof fn law_heartbeats_go_to_every_peer(
    peers: Seq<PeerView>,
    nonce: u64,
    message: SessionView,
)
    ensures
        crate::runtime::controller::next_nonce(nonce) == (nonce + 1) % 0x1_0000_0000_0000_0000,
        crate::runtime::controller::broadcast(peers, message).len() == peers.len(),
        forall|i: int|
            0 <= i < peers.len() ==> #[trigger] crate::runtime::controller::broadcast(
                peers,
                message,
            )[i] == (EffectView::Offer { peer: peers[i].node, message }),
{
}

/// A heartbeat of a peer is answered to that peer with its number. An
/// acknowledgement asks for nothing.
pub proof fn law_heartbeats_are_answered(state: ControllerRuntimeView, place: int, nonce: u64)
    requires
        0 <= place < state.peers.len(),
    ensures
        crate::runtime::controller::message_step(
            state,
            place,
            SessionView::Heartbeat { nonce },
        ).outcome == Ok::<Seq<EffectView>, RuntimeFault>(
            seq![
                EffectView::Offer {
                    peer: state.peers[place].node,
                    message: SessionView::HeartbeatAcknowledged { nonce },
                },
            ],
        ),
        crate::runtime::controller::message_step(
            state,
            place,
            SessionView::Heartbeat { nonce },
        ).state == state,
        crate::runtime::controller::message_step(
            state,
            place,
            SessionView::HeartbeatAcknowledged { nonce },
        ).outcome == Ok::<Seq<EffectView>, RuntimeFault>(seq![]),
        crate::runtime::controller::message_step(
            state,
            place,
            SessionView::HeartbeatAcknowledged { nonce },
        ).state == state,
{
}

/// Where the arrangement cannot follow a reported desktop, nothing changes and that
/// is told. Where it can, it is taken over, or, where nothing moved, the peer hears
/// again who has the focus. The desktop is told as it now stands, with the reported
/// number of monitors.
pub proof fn law_reported_desktops_are_taken_over(
    state: ControllerRuntimeView,
    peer: Seq<char>,
    monitor_count: u32,
    arranged: Result<Seq<PlacementView>, Seq<char>>,
)
    ensures
        ({
            let step = crate::runtime::controller::display_step(
                state,
                peer,
                monitor_count,
                arranged,
            );
            match arranged {
                Err(reason) => {
                    &&& step.state == state
                    &&& step.outcome matches Ok(effects) && effects.len() == 1 && effects[0]
                        matches EffectView::Tell(EventView::Error { message })
                },
                Ok(screens) => {
                    &&& step.outcome is Ok ==> crate::domain::arrangement::placement_of(
                        screens,
                        peer,
                    ) is Some
                    &&& step.outcome matches Ok(effects) ==> {
                        let shown = crate::domain::arrangement::placement_of(screens, peer)->Some_0;
                        &&& effects.len() > 1
                        &&& effects.last() == EffectView::Tell(
                            EventView::DisplayChanged { screen: shown, monitor_count },
                        )
                        &&& step.state.controller.screens == screens
                        &&& screens == state.controller.screens ==> step.state == state
                            && effects.len() == 2 && effects[0] == (EffectView::Send {
                            peer,
                            message: SessionView::FocusChanged {
                                focus_epoch: state.controller.epoch,
                                target: state.controller.focus,
                                entry_position: state.controller.position(),
                            },
                        })
                        &&& screens != state.controller.screens ==> effects[effects.len() - 2]
                            == EffectView::Tell(
                            EventView::FocusChanged { node: step.state.controller.focus },
                        )
                    }
                },
            }
        }),
{
}

/// A change of the local desktop gives up a crossing that waits and lets go of the
/// capture it held. The arrangement is taken over where it moved, and the change is
/// told last.
pub proof fn law_local_desktops_are_taken_over(
    state: ControllerRuntimeView,
    geometry: DesktopGeometry,
    screens: Seq<PlacementView>,
)
    ensures
        ({
            let step = crate::runtime::controller::desktop_step(state, geometry, Ok(screens));
            &&& step.outcome matches Ok(effects) ==> {
                &&& step.state.pending is None
                &&& step.state.controller.screens == screens
                &&& effects.len() > 0
                &&& effects.last() == EffectView::Tell(
                    EventView::LocalDesktopChanged { geometry },
                )
                &&& state.pending is Some ==> effects[0] == EffectView::ReleaseCapture
                    && effects.len() > 1
            }
            &&& screens == state.controller.screens ==> step.outcome is Ok
                && step.state.controller == state.controller && step.outcome->Ok_0.len() == 1 + if (
            state.pending is Some) {
                1int
            } else {
                0int
            }
        }),
{
}

/// What only a controller says is not taken from a peer: it changes nothing and is
/// told of.
pub proof fn law_peers_do_not_control(
    state: ControllerRuntimeView,
    place: int,
    message: SessionView,
)
    requires
        0 <= place < state.peers.len(),
        (message is FocusChanged) || (message is Input),
    ensures
        ({
            let step = crate::runtime::controller::message_step(state, place, message);
            &&& step.state == state
            &&& step.outcome == Ok::<Seq<EffectView>, RuntimeFault>(
                seq![
                    EffectView::Tell(
                        EventView::Error {
                            message: "Unexpected message from `"@ + state.peers[place].node
                                + "`"@,
                        },
                    ),
                ],
            )
        }),
{
}

/// A peer that takes leave departs.
pub proof fn law_farewells_end_the_connection(state: ControllerRuntimeView, place: int)
    requires
        are_different(state.peers),
        0 <= place < state.peers.len(),
        state.controller.focus != state.peers[place].node,
    ensures
        ({
            let step = crate::runtime::controller::message_step(
                state,
                place,
                SessionView::Disconnect,
            );
            &&& step.outcome is Ok
            &&& step.state.peers == state.peers.remove(place)
            &&& step.state.controller == state.controller
        }),
{
    let node = state.peers[place].node;
    crate::runtime::peers::lemma_place_from(state.peers, node, 0);
    let found = crate::runtime::peers::place_of(state.peers, node)->Some_0;
    if found < place {
        assert(state.peers[found].node != state.peers[place].node);
    } else if place < found {
        assert(state.peers[place].node != state.peers[found].node);
    }
}

/// A new arrangement is taken over with its behavior. A crossing that waits is
/// given up, and exactly those peers stay that are part of it.
pub proof fn law_new_arrangements_are_taken_over(
    state: ControllerRuntimeView,
    screens: Seq<PlacementView>,
    behavior: EdgeBehavior,
    node: Seq<char>,
    session_id: u128,
)
    requires
        are_different(state.peers),
    ensures
        ({
            let step = crate::runtime::controller::reconfiguration_step(state, screens, behavior);
            step.outcome is Ok ==> {
                &&& step.state.pending is None
                &&& step.state.behavior == behavior
                &&& step.state.controller.screens == screens
                &&& is_active(step.state.peers, node, session_id) <==> is_active(
                    state.peers,
                    node,
                    session_id,
                ) && crate::domain::arrangement::placement_of(screens, node) is Some
            }
        }),
{
    let begun = ControllerRuntimeView { pending: None, behavior, ..state };
    let session = crate::session::controller::topology_step(state.controller, screens);
    let next = ControllerRuntimeView { controller: session.state, ..begun };
    if session.outcome is Ok {
        law_peers_outside_the_arrangement_leave(next, 0, Seq::empty(), node, session_id);
        lemma_dismissal_keeps_the_rest(next, 0, Seq::empty());
    }
}

proof fn lemma_dismissal_keeps_the_rest(
    state: ControllerRuntimeView,
    from: int,
    effects: Seq<EffectView>,
)
    requires
        0 <= from <= state.peers.len(),
    ensures
        ({
            let step = crate::runtime::controller::dismissal_from(state, from, effects);
            &&& step.state.pending == state.pending
            &&& step.state.behavior == state.behavior
            &&& step.state.controller == state.controller
        }),
    decreases state.peers.len() - from,
{
    if from < state.peers.len() {
        let peer = state.peers[from].node;
        if crate::domain::arrangement::placement_of(state.controller.screens, peer) is Some {
            lemma_dismissal_keeps_the_rest(state, from + 1, effects);
        } else {
            let left = ControllerRuntimeView { peers: state.peers.remove(from), ..state };
            let more = effects.push(EffectView::Dismiss { peer, farewell: true }).push(
                EffectView::Tell(
                    EventView::Disconnected { peer, reason: "Removed from the topology"@ },
                ),
            );
            lemma_dismissal_keeps_the_rest(left, from, more);
        }
    }
}

} // verus!
