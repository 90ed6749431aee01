//! The session of a controller: captured input, connected peers and the
//! clipboard.

use vstd::prelude::*;
use vstd::string::*;

use crate::config::{EdgeBehavior, EdgePosition};
use crate::domain::arrangement::Topology;
use crate::domain::display::DesktopLayout;
use crate::domain::identity::NodeId;
use crate::domain::input::InputEvent;
use crate::domain::topology::Edge;
use crate::platform::clipboard::ClipboardServiceEvent;
use crate::platform::geometry::DesktopGeometry;
use crate::platform::report::BackendKind;
use crate::protocol::clipboard::{ClipboardControl, ClipboardText};
use crate::protocol::message::Session;
use crate::runtime::activation::{
    activation_target, capture_edges, resize_topology_screen, EmergencyShortcut, ResizeError,
};
use crate::runtime::applications::ClipboardApplications;
use crate::runtime::effect::{emit, no_effects, tell_error, tell_focus, Effect};
use crate::runtime::event::{node_text, RuntimeError, RuntimeEvent};
use crate::runtime::peers::{find_peer, join, leave, set_clipboard, take_clipboard, ActivePeer};
use crate::session::clipboard::{ClipboardAction, ClipboardSession, ClipboardSessionError};
use crate::session::controller::{ControllerAction, ControllerError, ControllerSession};
use crate::transport::handshake::ConnectionInfo;

verus! {

/// An edge crossing that waits for its delay to pass.
#[derive(Debug)]
pub struct PendingActivation {
    edge: Edge,
    offset: u32,
    target: NodeId,
    ready_at_millis: u64,
}

pub ghost struct PendingView {
    pub edge: Edge,
    pub offset: u32,
    pub target: Seq<char>,
    pub ready_at_millis: u64,
}

/// The session of a controller.
#[derive(Debug)]
pub struct ControllerRuntime {
    local_node: NodeId,
    topology: Topology,
    controller: ControllerSession,
    peers: Vec<ActivePeer>,
    behavior: EdgeBehavior,
    pending: Option<PendingActivation>,
    shortcut: EmergencyShortcut,
    applications: ClipboardApplications,
    clipboard_available: bool,
    heartbeat_nonce: u64,
}

pub ghost struct ControllerRuntimeView {
    pub controller: crate::session::controller::ControllerView,
    pub peers: Seq<crate::runtime::peers::PeerView>,
    pub behavior: EdgeBehavior,
    pub pending: Option<PendingView>,
    pub shortcut: EmergencyShortcut,
    pub applications: crate::runtime::applications::ApplicationsView,
    pub clipboard_available: bool,
    pub heartbeat_nonce: u64,
}

pub open spec fn pending_view(pending: Option<PendingActivation>) -> Option<PendingView> {
    match pending {
        Some(pending) => Some(pending.meaning()),
        None => None,
    }
}

impl PendingActivation {
    pub closed spec fn meaning(self) -> PendingView {
        PendingView {
            edge: self.edge,
            offset: self.offset,
            target: self.target@,
            ready_at_millis: self.ready_at_millis,
        }
    }
}

impl View for ControllerRuntime {
    type V = ControllerRuntimeView;

    closed spec fn view(&self) -> ControllerRuntimeView {
        ControllerRuntimeView {
            controller: self.controller@,
            peers: crate::runtime::peers::peer_views(self.peers@),
            behavior: self.behavior,
            pending: pending_view(self.pending),
            shortcut: self.shortcut,
            applications: self.applications@,
            clipboard_available: self.clipboard_available,
            heartbeat_nonce: self.heartbeat_nonce,
        }
    }
}

/// What comes of an event: what is done, and the state after it, or why the
/// session ends.
pub ghost struct RuntimeStep {
    pub state: ControllerRuntimeView,
    pub outcome: Result<
        Seq<crate::runtime::effect::EffectView>,
        crate::runtime::event::RuntimeFault,
    >,
}

pub open spec fn done(
    state: ControllerRuntimeView,
    effects: Seq<crate::runtime::effect::EffectView>,
) -> RuntimeStep {
    RuntimeStep { state, outcome: Ok(effects) }
}

pub open spec fn ended(
    state: ControllerRuntimeView,
    fault: crate::runtime::event::RuntimeFault,
) -> RuntimeStep {
    RuntimeStep { state, outcome: Err(fault) }
}

/// A step followed by another; what both do is done in order.
pub open spec fn and_then(
    first: RuntimeStep,
    second: spec_fn(ControllerRuntimeView) -> RuntimeStep,
) -> RuntimeStep {
    match first.outcome {
        Err(fault) => first,
        Ok(effects) => {
            let next = second(first.state);
            match next.outcome {
                Err(fault) => next,
                Ok(more) => done(next.state, effects + more),
            }
        },
    }
}

/// `result` and `after` are what a step says. The state of a session that ends
/// does not matter any more.
pub open spec fn is_step(
    step: RuntimeStep,
    result: Result<Vec<Effect>, RuntimeError>,
    after: ControllerRuntimeView,
) -> bool {
    match (step.outcome, result) {
        (Ok(effects), Ok(done)) => crate::runtime::effect::effect_views(done@) == effects && after
            == step.state,
        (Err(fault), Err(error)) => error@ == fault,
        _ => false,
    }
}

/// The text that tells of a node without a connection.
pub open spec fn not_connected(node: Seq<char>) -> Seq<char> {
    "`"@ + node + "` is not connected"@
}

/// What is done for the actions of the controller session: messages go to the
/// connected peers, and the others are told of.
pub open spec fn delivered(
    peers: Seq<crate::runtime::peers::PeerView>,
    actions: Seq<crate::session::controller::ActionView>,
) -> Seq<crate::runtime::effect::EffectView>
    decreases actions.len(),
{
    if actions.len() == 0 {
        Seq::empty()
    } else {
        delivered(peers, actions.drop_last()).push(
            match actions.last() {
                crate::session::controller::ActionView::Send { peer, message } => {
                    if crate::runtime::peers::is_connected(peers, peer) {
                        crate::runtime::effect::EffectView::Send { peer, message }
                    } else {
                        crate::runtime::effect::told(not_connected(peer))
                    }
                },
                crate::session::controller::ActionView::ReleaseCapture => {
                    crate::runtime::effect::EffectView::ReleaseCapture
                },
            },
        )
    }
}

/// What comes of a step of the controller session, without news of the focus.
pub open spec fn routed(
    state: ControllerRuntimeView,
    step: crate::session::controller::ControllerStep,
) -> RuntimeStep {
    let next = ControllerRuntimeView { controller: step.state, ..state };
    match step.outcome {
        Err(error) => ended(next, crate::runtime::event::RuntimeFault::Controller(error)),
        Ok(actions) => done(next, delivered(state.peers, actions)),
    }
}

/// What comes of a step of the controller session that may move the focus.
pub open spec fn moved(
    state: ControllerRuntimeView,
    step: crate::session::controller::ControllerStep,
) -> RuntimeStep {
    and_then(
        routed(state, step),
        |next: ControllerRuntimeView|
            done(next, seq![crate::runtime::effect::focus_told(next.controller.focus)]),
    )
}

/// The input goes back to the local desktop.
pub open spec fn return_step(state: ControllerRuntimeView) -> RuntimeStep {
    moved(
        ControllerRuntimeView { pending: None, ..state },
        crate::session::controller::return_step(state.controller),
    )
}

/// The peers that are no longer part of the arrangement leave, in the order of
/// their identifiers, from `from` on.
pub open spec fn dismissal_from(
    state: ControllerRuntimeView,
    from: int,
    effects: Seq<crate::runtime::effect::EffectView>,
) -> RuntimeStep
    decreases state.peers.len() - from,
{
    if from < 0 || from >= state.peers.len() {
        done(state, effects)
    } else if crate::domain::arrangement::placement_of(
        state.controller.screens,
        state.peers[from].node,
    ) is Some {
        dismissal_from(state, from + 1, effects)
    } else {
        let peer = state.peers[from].node;
        dismissal_from(
            ControllerRuntimeView { peers: state.peers.remove(from), ..state },
            from,
            effects.push(
                crate::runtime::effect::EffectView::Dismiss { peer, farewell: true },
            ).push(
                crate::runtime::effect::EffectView::Tell(
                    crate::runtime::event::EventView::Disconnected {
                        peer,
                        reason: "Removed from the topology"@,
                    },
                ),
            ),
        )
    }
}

/// The edges are captured that lead to another desktop.
pub open spec fn is_configuration(
    state: ControllerRuntimeView,
    effect: crate::runtime::effect::EffectView,
) -> bool {
    match effect {
        crate::runtime::effect::EffectView::ConfigureCapture { edges } => {
            &&& edges.no_duplicates()
            &&& crate::runtime::activation::are_in_order(edges)
            &&& forall|edge: Edge| #[trigger]
                edges.contains(edge) <==> crate::runtime::activation::is_captured(
                    state.controller.screens,
                    state.controller.local_node,
                    state.behavior,
                    edge,
                )
        },
        _ => false,
    }
}

/// The arrangement changes under a running session, before the capture is told.
pub open spec fn reconfiguration_step(
    state: ControllerRuntimeView,
    screens: Seq<crate::domain::arrangement::PlacementView>,
    behavior: EdgeBehavior,
) -> RuntimeStep {
    and_then(
        routed(
            ControllerRuntimeView { pending: None, behavior, ..state },
            crate::session::controller::topology_step(state.controller, screens),
        ),
        |next: ControllerRuntimeView| dismissal_from(next, 0, Seq::empty()),
    )
}

/// An edge crossing is carried out.
pub open spec fn activation_step(
    state: ControllerRuntimeView,
    edge: Edge,
    offset: u32,
) -> RuntimeStep {
    moved(state, crate::session::controller::activation_step(state.controller, edge, offset))
}

/// The middle of an edge where the place is not known.
pub open spec fn crossing_units(position: Option<EdgePosition>) -> int {
    match position {
        Some(position) => position@,
        None => (crate::config::EDGE_UNITS / 2) as int,
    }
}

/// The pointer crossed an edge of the local desktop. It must be allowed there,
/// lead to a desktop, and to a connected one; it takes place at once or after
/// the delay.
pub open spec fn crossing_step(
    state: ControllerRuntimeView,
    edge: Edge,
    position: Option<EdgePosition>,
    now_millis: u64,
) -> RuntimeStep {
    if !state.behavior.is_allowed(edge, crossing_units(position)) {
        done(state, seq![crate::runtime::effect::EffectView::ReleaseCapture])
    } else {
        match crate::runtime::activation::target_of(
            state.controller.screens,
            state.controller.local_node,
            edge,
            position,
        ) {
            None => done(state, seq![crate::runtime::effect::EffectView::ReleaseCapture]),
            Some((target, offset)) => {
                if !crate::runtime::peers::is_connected(state.peers, target) {
                    done(
                        state,
                        seq![
                            crate::runtime::effect::EffectView::ReleaseCapture,
                            crate::runtime::effect::told(not_connected(target)),
                        ],
                    )
                } else if state.behavior.switch_delay_ms == 0 {
                    activation_step(state, edge, offset)
                } else {
                    done(
                        ControllerRuntimeView {
                            pending: Some(
                                PendingView {
                                    edge,
                                    offset,
                                    target,
                                    ready_at_millis: later(
                                        now_millis,
                                        state.behavior.switch_delay_ms,
                                    ),
                                },
                            ),
                            ..state
                        },
                        Seq::empty(),
                    )
                }
            },
        }
    }
}

/// The time after a delay.
pub open spec fn later(now_millis: u64, delay_millis: u32) -> u64 {
    if now_millis + delay_millis <= u64::MAX {
        (now_millis + delay_millis) as u64
    } else {
        u64::MAX
    }
}

/// A delayed crossing takes place once its time has come, if its target is
/// still connected.
pub open spec fn due_step(state: ControllerRuntimeView, now_millis: u64) -> RuntimeStep {
    match state.pending {
        None => done(state, Seq::empty()),
        Some(pending) => if pending.ready_at_millis > now_millis {
            done(state, Seq::empty())
        } else {
            let next = ControllerRuntimeView { pending: None, ..state };
            if !crate::runtime::peers::is_connected(state.peers, pending.target) {
                done(next, seq![crate::runtime::effect::EffectView::ReleaseCapture])
            } else {
                activation_step(next, pending.edge, pending.offset)
            }
        },
    }
}

/// A captured event: the emergency shortcut gives the input back, everything
/// else goes to the focused peer unless the pointer is at home or a crossing is
/// waiting.
pub open spec fn captured_step(state: ControllerRuntimeView, event: InputEvent) -> RuntimeStep {
    let seen = ControllerRuntimeView { shortcut: state.shortcut.after(event), ..state };
    if state.shortcut.is_completed_by(event) {
        return_step(seen)
    } else if state.pending is Some || state.controller.focus == state.controller.local_node {
        done(seen, Seq::empty())
    } else {
        and_then(
            routed(seen, crate::session::controller::input_step(state.controller, event)),
            |next: ControllerRuntimeView|
                done(
                    next,
                    if next.controller.focus != state.controller.focus {
                        seq![crate::runtime::effect::focus_told(next.controller.focus)]
                    } else {
                        Seq::empty()
                    },
                ),
        )
    }
}

/// What is buffered goes out.
pub open spec fn flush_step(state: ControllerRuntimeView) -> RuntimeStep {
    routed(state, crate::session::controller::flush_step(state.controller))
}

/// A peer leaves: where it had the focus, the input goes back to the local
/// desktop.
pub open spec fn departure_step(
    state: ControllerRuntimeView,
    peer: Seq<char>,
    session_id: u128,
    reason: Seq<char>,
) -> RuntimeStep {
    match crate::runtime::peers::place_of(state.peers, peer) {
        None => done(state, Seq::empty()),
        Some(place) => if state.peers[place].session_id != session_id {
            done(state, Seq::empty())
        } else {
            let gone = done(
                ControllerRuntimeView { peers: state.peers.remove(place), ..state },
                seq![
                    crate::runtime::effect::EffectView::Dismiss { peer, farewell: false },
                    crate::runtime::effect::EffectView::Tell(
                        crate::runtime::event::EventView::Disconnected { peer, reason },
                    ),
                ],
            );
            if state.controller.focus != peer {
                gone
            } else {
                and_then(
                    gone,
                    |next: ControllerRuntimeView|
                        moved(next, crate::session::controller::return_step(next.controller)),
                )
            }
        },
    }
}

/// A new connection of a peer of the arrangement is taken in.
pub open spec fn arrival_step(
    state: ControllerRuntimeView,
    info: crate::transport::handshake::InfoView,
) -> RuntimeStep {
    let peer = info.peer;
    if crate::domain::arrangement::placement_of(state.controller.screens, peer) is None {
        done(
            state,
            seq![
                crate::runtime::effect::EffectView::Decline,
                crate::runtime::effect::told(
                    "Trusted node `"@ + peer + "` is not present in the controller topology"@,
                ),
            ],
        )
    } else if !state.controller.deliveries.dom().contains(peer) {
        ended(
            state,
            crate::runtime::event::RuntimeFault::Controller(
                crate::session::controller::ErrorView::UnknownPeer(peer),
            ),
        )
    } else {
        let clipboard = info.negotiated_capabilities.clipboard_text;
        done(
            ControllerRuntimeView {
                controller: crate::session::controller::ControllerView {
                    deliveries: state.controller.deliveries.insert(
                        peer,
                        crate::session::delivery::DeliveryView::fresh(),
                    ),
                    ..state.controller
                },
                peers: crate::runtime::peers::joined(
                    state.peers,
                    crate::runtime::peers::PeerView {
                        node: peer,
                        session_id: info.session_id,
                        clipboard: if clipboard {
                            Some(
                                crate::session::clipboard::initial(
                                    state.controller.local_node,
                                    peer,
                                ),
                            )
                        } else {
                            None
                        },
                    },
                ),
                ..state
            },
            seq![
                crate::runtime::effect::EffectView::Keep {
                    peer,
                    session_id: info.session_id,
                    clipboard,
                },
                crate::runtime::effect::EffectView::Tell(
                    crate::runtime::event::EventView::Connected {
                        peer,
                        session_id: info.session_id,
                    },
                ),
            ],
        )
    }
}

/// A message for every connected peer, from `from` on.
pub open spec fn broadcast(
    peers: Seq<crate::runtime::peers::PeerView>,
    message: crate::protocol::message::SessionView,
) -> Seq<crate::runtime::effect::EffectView> {
    peers.map_values(
        |peer: crate::runtime::peers::PeerView|
            crate::runtime::effect::EffectView::Offer { peer: peer.node, message },
    )
}

/// The number after a heartbeat. It starts over when it is used up.
pub open spec fn next_nonce(nonce: u64) -> u64 {
    if nonce == u64::MAX {
        0
    } else {
        (nonce + 1) as u64
    }
}

impl ControllerRuntime {
    /// What holds of every session that has not ended.
    pub closed spec fn is_valid(self) -> bool {
        &&& self.controller.is_valid()
        &&& self.topology@ == self.controller@.screens
        &&& self.local_node@ == self.controller@.local_node
        &&& crate::session::roster::is_sorted(
            crate::runtime::peers::names(crate::runtime::peers::peer_views(self.peers@)),
        )
    }

    /// A session with the input at home and nobody connected.
    pub fn new(
        local_node: NodeId,
        topology: Topology,
        behavior: EdgeBehavior,
        clipboard_available: bool,
    ) -> (result: Result<ControllerRuntime, RuntimeError>)
        ensures
            match result {
                Ok(runtime) => {
                    &&& runtime.is_valid()
                    &&& crate::domain::arrangement::has_node(topology@, local_node@)
                    &&& runtime@.controller == crate::session::controller::initial(
                        topology@,
                        local_node@,
                    )
                    &&& runtime@.peers == Seq::<crate::runtime::peers::PeerView>::empty()
                    &&& runtime@.behavior == behavior
                    &&& runtime@.pending is None
                    &&& runtime@.shortcut == (EmergencyShortcut { control: false, alt: false })
                    &&& runtime@.applications
                        == crate::runtime::applications::ApplicationsView::none()
                    &&& runtime@.clipboard_available == clipboard_available
                    &&& runtime@.heartbeat_nonce == 0
                },
                Err(error) => !crate::domain::arrangement::has_node(topology@, local_node@)
                    && error@ == crate::runtime::event::RuntimeFault::Controller(
                    crate::session::controller::ErrorView::LocalNodeMissing(local_node@),
                ),
            },
    {
        let controller = match ControllerSession::new(topology.clone(), local_node.clone()) {
            Ok(controller) => controller,
            Err(error) => {
                return Err(RuntimeError::Controller(error));
            },
        };
        let peers: Vec<ActivePeer> = Vec::new();
        assert(crate::runtime::peers::peer_views(peers@) =~= Seq::<
            crate::runtime::peers::PeerView,
        >::empty());
        Ok(
            ControllerRuntime {
                local_node,
                topology,
                controller,
                peers,
                behavior,
                pending: None,
                shortcut: EmergencyShortcut::new(),
                applications: ClipboardApplications::new(),
                clipboard_available,
                heartbeat_nonce: 0,
            },
        )
    }

    /// The edges that are captured from the start.
    pub fn captured_edges(&self) -> (edges: Vec<Edge>)
        requires
            self.is_valid(),
        ensures
            is_configuration(
                self@,
                crate::runtime::effect::EffectView::ConfigureCapture { edges: edges@ },
            ),
    {
        capture_edges(&self.topology, &self.local_node, self.behavior)
    }

    /// The node that the input goes to.
    pub fn focus(&self) -> (node: &NodeId)
        ensures
            node@ == self@.controller.focus,
    {
        self.controller.focus()
    }

    fn deliver(&self, actions: Vec<ControllerAction>, effects: &mut Vec<Effect>)
        ensures
            crate::runtime::effect::effect_views(final(effects)@)
                == crate::runtime::effect::effect_views(old(effects)@) + delivered(
                self@.peers,
                crate::session::controller::action_views(actions@),
            ),
    {
        let ghost before = crate::runtime::effect::effect_views(effects@);
        let ghost views = crate::session::controller::action_views(actions@);
        let mut index: usize = 0;
        assert(views.take(0) =~= Seq::<crate::session::controller::ActionView>::empty());
        while index < actions.len()
            invariant
                index <= actions@.len(),
                views == crate::session::controller::action_views(actions@),
                crate::runtime::effect::effect_views(effects@) == before + delivered(
                    self@.peers,
                    views.take(index as int),
                ),
            decreases actions@.len() - index,
        {
            let ghost so_far = delivered(self@.peers, views.take(index as int));
            proof {
                let longer = views.take(index + 1);
                assert(longer.drop_last() =~= views.take(index as int));
                assert(longer.last() == actions@[index as int]@);
            }
            match &actions[index] {
                ControllerAction::Send { peer, message } => {
                    if find_peer(&self.peers, peer).is_some() {
                        emit(
                            effects,
                            Effect::Send { peer: peer.clone(), message: message.clone() },
                        );
                    } else {
                        tell_error(effects, node_text("`", peer, "` is not connected"));
                    }
                },
                ControllerAction::ReleaseCapture => emit(effects, Effect::ReleaseCapture),
            }
            assert(crate::runtime::effect::effect_views(effects@) =~= before + delivered(
                self@.peers,
                views.take(index + 1),
            ));
            index += 1;
        }
        assert(views.take(index as int) =~= views);
    }

    /// Delivers what came of a step of the controller session, and tells where
    /// the focus is.
    fn finish_move(
        &self,
        result: Result<Vec<ControllerAction>, ControllerError>,
        effects: &mut Vec<Effect>,
    ) -> (outcome: Result<(), RuntimeError>)
        ensures
            match crate::session::controller::outcome_of(result) {
                Ok(actions) => outcome is Ok && crate::runtime::effect::effect_views(
                    final(effects)@,
                ) == crate::runtime::effect::effect_views(old(effects)@) + delivered(
                    self@.peers,
                    actions,
                ) + seq![crate::runtime::effect::focus_told(self@.controller.focus)],
                Err(error) => outcome matches Err(fault) && fault@
                    == crate::runtime::event::RuntimeFault::Controller(error),
            },
    {
        let actions = match result {
            Ok(actions) => actions,
            Err(error) => {
                return Err(RuntimeError::Controller(error));
            },
        };
        let ghost before = crate::runtime::effect::effect_views(effects@);
        let ghost views = crate::session::controller::action_views(actions@);
        self.deliver(actions, effects);
        tell_focus(effects, self.controller.focus());
        assert(crate::runtime::effect::effect_views(effects@) =~= before + delivered(
            self@.peers,
            views,
        ) + seq![crate::runtime::effect::focus_told(self@.controller.focus)]);
        Ok(())
    }

    /// Gives the input back to the local desktop.
    pub fn return_local(&mut self) -> (result: Result<Vec<Effect>, RuntimeError>)
        requires
            old(self).is_valid(),
        ensures
            is_step(return_step(old(self)@), result, final(self)@),
            result is Ok ==> final(self).is_valid(),
    {
        self.pending = None;
        let mut effects = no_effects();
        let returned = self.controller.return_to_local();
        proof {
            lemma_return_keeps_arrangement(old(self)@.controller);
        }
        if let Err(error) = self.finish_move(returned, &mut effects) {
            return Err(error);
        }
        assert(crate::runtime::effect::effect_views(effects@) =~= return_step(
            old(self)@,
        ).outcome->Ok_0);
        Ok(effects)
    }

    fn activate(&mut self, edge: Edge, offset: u32) -> (result: Result<Vec<Effect>, RuntimeError>)
        requires
            old(self).is_valid(),
        ensures
            is_step(activation_step(old(self)@, edge, offset), result, final(self)@),
            result is Ok ==> final(self).is_valid(),
    {
        let mut effects = no_effects();
        let activated = self.controller.activate(edge, offset);
        proof {
            lemma_activation_keeps_arrangement(old(self)@.controller, edge, offset);
        }
        if let Err(error) = self.finish_move(activated, &mut effects) {
            return Err(error);
        }
        assert(crate::runtime::effect::effect_views(effects@) =~= activation_step(
            old(self)@,
            edge,
            offset,
        ).outcome->Ok_0);
        Ok(effects)
    }

    /// The pointer crossed an edge of the local desktop.
    pub fn edge_crossed(
        &mut self,
        edge: Edge,
        position: Option<EdgePosition>,
        now_millis: u64,
    ) -> (result: Result<Vec<Effect>, RuntimeError>)
        requires
            old(self).is_valid(),
        ensures
            is_step(crossing_step(old(self)@, edge, position, now_millis), result, final(self)@),
            result is Ok ==> final(self).is_valid(),
    {
        let mut effects = no_effects();
        let place = match position {
            Some(position) => position,
            None => EdgePosition::middle(),
        };
        if !self.behavior.allows(edge, place) {
            emit(&mut effects, Effect::ReleaseCapture);
            assert(crate::runtime::effect::effect_views(effects@)
                =~= seq![crate::runtime::effect::EffectView::ReleaseCapture]);
            return Ok(effects);
        }
        let target = activation_target(&self.topology, &self.local_node, edge, position);
        let (target, offset): (NodeId, u32) = match target {
            Some(target) => target,
            None => {
                emit(&mut effects, Effect::ReleaseCapture);
                assert(crate::runtime::effect::effect_views(effects@)
                    =~= seq![crate::runtime::effect::EffectView::ReleaseCapture]);
                return Ok(effects);
            },
        };
        if find_peer(&self.peers, &target).is_none() {
            emit(&mut effects, Effect::ReleaseCapture);
            tell_error(&mut effects, node_text("`", &target, "` is not connected"));
            assert(crate::runtime::effect::effect_views(effects@) =~= seq![
                crate::runtime::effect::EffectView::ReleaseCapture,
                crate::runtime::effect::told(not_connected(target@)),
            ]);
            return Ok(effects);
        }
        if self.behavior.switch_delay_ms == 0 {
            return self.activate(edge, offset);
        }
        let delay: u64 = self.behavior.switch_delay_ms as u64;
        let ready_at_millis: u64 = if now_millis <= u64::MAX - delay {
            now_millis + delay
        } else {
            u64::MAX
        };
        self.pending = Some(PendingActivation { edge, offset, target, ready_at_millis });
        Ok(effects)
    }

    /// Some time has passed: a delayed crossing may take place, and what is
    /// buffered goes out.
    pub fn tick(&mut self, now_millis: u64) -> (result: Result<Vec<Effect>, RuntimeError>)
        requires
            old(self).is_valid(),
        ensures
            is_step(
                and_then(
                    due_step(old(self)@, now_millis),
                    |next: ControllerRuntimeView| flush_step(next),
                ),
                result,
                final(self)@,
            ),
            result is Ok ==> final(self).is_valid(),
    {
        let mut effects = match self.complete_pending_activation(now_millis) {
            Ok(effects) => effects,
            Err(error) => {
                return Err(error);
            },
        };
        let ghost between = self@;
        let ghost first = crate::runtime::effect::effect_views(effects@);
        let flushed = self.controller.flush();
        proof {
            lemma_flush_keeps_arrangement(between.controller);
        }
        match flushed {
            Ok(actions) => {
                self.deliver(actions, &mut effects);
                Ok(effects)
            },
            Err(error) => Err(RuntimeError::Controller(error)),
        }
    }

    fn complete_pending_activation(&mut self, now_millis: u64) -> (result: Result<
        Vec<Effect>,
        RuntimeError,
    >)
        requires
            old(self).is_valid(),
        ensures
            is_step(due_step(old(self)@, now_millis), result, final(self)@),
            result is Ok ==> final(self).is_valid(),
    {
        let due = match &self.pending {
            Some(pending) => pending.ready_at_millis <= now_millis,
            None => false,
        };
        if !due {
            return Ok(no_effects());
        }
        let mut pending: Option<PendingActivation> = None;
        std::mem::swap(&mut self.pending, &mut pending);
        match pending {
            Some(pending) => {
                if find_peer(&self.peers, &pending.target).is_none() {
                    let mut effects = no_effects();
                    emit(&mut effects, Effect::ReleaseCapture);
                    assert(crate::runtime::effect::effect_views(effects@)
                        =~= seq![crate::runtime::effect::EffectView::ReleaseCapture]);
                    return Ok(effects);
                }
                self.activate(pending.edge, pending.offset)
            },
            None => Ok(no_effects()),
        }
    }

    /// An input event was captured.
    pub fn input_captured(&mut self, event: InputEvent) -> (result: Result<
        Vec<Effect>,
        RuntimeError,
    >)
        requires
            old(self).is_valid(),
        ensures
            is_step(captured_step(old(self)@, event), result, final(self)@),
            result is Ok ==> final(self).is_valid(),
    {
        if self.shortcut.observe(event) {
            return self.return_local();
        }
        if self.pending.is_some() || *self.controller.focus() == self.local_node {
            return Ok(no_effects());
        }
        let previous = self.controller.focus().clone();
        let ghost seen = self@;
        let mut effects = no_effects();
        let routed_input = self.controller.route_input(event);
        proof {
            lemma_input_keeps_arrangement(seen.controller, event);
        }
        let actions = match routed_input {
            Ok(actions) => actions,
            Err(error) => {
                return Err(RuntimeError::Controller(error));
            },
        };
        let ghost views = crate::session::controller::action_views(actions@);
        self.deliver(actions, &mut effects);
        let ghost first = crate::runtime::effect::effect_views(effects@);
        if *self.controller.focus() != previous {
            tell_focus(&mut effects, self.controller.focus());
        }
        proof {
            let expected = captured_step(old(self)@, event);
            assert(first =~= delivered(seen.peers, views));
            assert(crate::runtime::effect::effect_views(effects@) =~= expected.outcome->Ok_0);
        }
        Ok(effects)
    }

    /// The capture was released.
    pub fn capture_released(&mut self)
        requires
            old(self).is_valid(),
        ensures
            final(self)@ == (ControllerRuntimeView { pending: None, ..old(self)@ }),
            final(self).is_valid(),
    {
        self.pending = None;
    }

    /// The next heartbeat for every peer.
    pub fn heartbeat(&mut self) -> (effects: Vec<Effect>)
        requires
            old(self).is_valid(),
        ensures
            final(self)@ == (ControllerRuntimeView {
                heartbeat_nonce: next_nonce(old(self)@.heartbeat_nonce),
                ..old(self)@
            }),
            crate::runtime::effect::effect_views(effects@) == broadcast(
                old(self)@.peers,
                crate::protocol::message::SessionView::Heartbeat {
                    nonce: next_nonce(old(self)@.heartbeat_nonce),
                },
            ),
            final(self).is_valid(),
    {
        let nonce: u64 = if self.heartbeat_nonce == u64::MAX {
            0
        } else {
            self.heartbeat_nonce + 1
        };
        self.heartbeat_nonce = nonce;
        let message = Session::Heartbeat { nonce };
        self.offer_all(&message)
    }

    /// The last words of the session.
    pub fn stop(&self) -> (effects: Vec<Effect>)
        ensures
            crate::runtime::effect::effect_views(effects@) == broadcast(
                self@.peers,
                crate::protocol::message::SessionView::Disconnect,
            ).push(crate::runtime::effect::EffectView::ReleaseCapture),
    {
        let mut effects = self.offer_all(&Session::Disconnect);
        emit(&mut effects, Effect::ReleaseCapture);
        effects
    }

    fn offer_all(&self, message: &Session) -> (effects: Vec<Effect>)
        ensures
            crate::runtime::effect::effect_views(effects@) == broadcast(self@.peers, message@),
    {
        let mut effects = no_effects();
        let mut index: usize = 0;
        let ghost expected = broadcast(self@.peers, message@);
        assert(expected.take(0) =~= Seq::<crate::runtime::effect::EffectView>::empty());
        while index < self.peers.len()
            invariant
                index <= self.peers@.len(),
                expected == broadcast(self@.peers, message@),
                crate::runtime::effect::effect_views(effects@) == expected.take(index as int),
            decreases self.peers@.len() - index,
        {
            assert(self@.peers[index as int] == self.peers@[index as int]@);
            let peer = self.peers[index].node.clone();
            emit(&mut effects, Effect::Offer { peer, message: message.clone() });
            assert(expected.take(index + 1) =~= expected.take(index as int).push(
                expected[index as int],
            ));
            index += 1;
        }
        assert(expected.take(index as int) =~= expected);
        effects
    }

    /// A new secure connection was made.
    pub fn peer_connected(&mut self, info: ConnectionInfo) -> (result: Result<
        Vec<Effect>,
        RuntimeError,
    >)
        requires
            old(self).is_valid(),
        ensures
            is_step(arrival_step(old(self)@, info@), result, final(self)@),
            result is Ok ==> final(self).is_valid(),
    {
        let mut effects = no_effects();
        if self.topology.screen(&info.peer).is_none() {
            emit(&mut effects, Effect::Decline);
            tell_error(
                &mut effects,
                node_text(
                    "Trusted node `",
                    &info.peer,
                    "` is not present in the controller topology",
                ),
            );
            assert(crate::runtime::effect::effect_views(effects@) =~= arrival_step(
                old(self)@,
                info@,
            ).outcome->Ok_0);
            return Ok(effects);
        }
        if let Err(error) = self.controller.reset_peer(&info.peer) {
            return Err(RuntimeError::Controller(error));
        }
        let with_clipboard = info.negotiated_capabilities.clipboard_text;
        let clipboard = if with_clipboard {
            Some(ClipboardSession::new(self.local_node.clone(), info.peer.clone()))
        } else {
            None
        };
        join(
            &mut self.peers,
            ActivePeer { node: info.peer.clone(), session_id: info.session_id, clipboard },
        );
        emit(
            &mut effects,
            Effect::Keep {
                peer: info.peer.clone(),
                session_id: info.session_id,
                clipboard: with_clipboard,
            },
        );
        emit(
            &mut effects,
            Effect::Tell(
                RuntimeEvent::Connected { peer: info.peer, session_id: info.session_id },
            ),
        );
        assert(crate::runtime::effect::effect_views(effects@) =~= arrival_step(
            old(self)@,
            info@,
        ).outcome->Ok_0);
        Ok(effects)
    }

    /// The connection of a peer was lost. Another session of the same peer is
    /// not meant.
    pub fn peer_disconnected(&mut self, peer: &NodeId, session_id: u128, reason: String) -> (result:
        Result<Vec<Effect>, RuntimeError>)
        requires
            old(self).is_valid(),
        ensures
            is_step(
                departure_step(old(self)@, peer@, session_id, reason@),
                result,
                final(self)@,
            ),
            result is Ok ==> final(self).is_valid(),
    {
        let mut effects = no_effects();
        let place = match find_peer(&self.peers, peer) {
            Some(place) => place,
            None => {
                return Ok(effects);
            },
        };
        assert(self@.peers[place as int] == self.peers@[place as int]@);
        if self.peers[place].session_id != session_id {
            return Ok(effects);
        }
        let _ = leave(&mut self.peers, place);
        emit(&mut effects, Effect::Dismiss { peer: peer.clone(), farewell: false });
        emit(
            &mut effects,
            Effect::Tell(RuntimeEvent::Disconnected { peer: peer.clone(), reason }),
        );
        let ghost gone = self@;
        if *self.controller.focus() == *peer {
            let returned = self.controller.return_to_local();
            proof {
                lemma_return_keeps_arrangement(gone.controller);
            }
            if let Err(error) = self.finish_move(returned, &mut effects) {
                return Err(error);
            }
        }
        assert(crate::runtime::effect::effect_views(effects@) =~= departure_step(
            old(self)@,
            peer@,
            session_id,
            reason@,
        ).outcome->Ok_0);
        Ok(effects)
    }
}

/// What is done for the actions of a clipboard session with a peer.
pub open spec fn clipboard_effects(
    peer: Seq<char>,
    actions: Seq<crate::session::clipboard::ActionView>,
) -> Seq<crate::runtime::effect::EffectView>
    decreases actions.len(),
{
    if actions.len() == 0 {
        Seq::empty()
    } else {
        let earlier = clipboard_effects(peer, actions.drop_last());
        match actions.last() {
            crate::session::clipboard::ActionView::SendControl(control) => earlier.push(
                crate::runtime::effect::EffectView::Send {
                    peer,
                    message: crate::protocol::message::SessionView::Clipboard(control),
                },
            ),
            crate::session::clipboard::ActionView::SendTransfer(transfer) => earlier.push(
                crate::runtime::effect::EffectView::Transfer { peer, transfer },
            ),
            crate::session::clipboard::ActionView::ApplyRemote(transfer) => earlier,
        }
    }
}

/// The texts that wait for the native clipboard after the actions of a clipboard
/// session with a peer.
pub open spec fn queued_after(
    applications: crate::runtime::applications::ApplicationsView,
    peer: Seq<char>,
    actions: Seq<crate::session::clipboard::ActionView>,
) -> crate::runtime::applications::ApplicationsView
    decreases actions.len(),
{
    if actions.len() == 0 {
        applications
    } else {
        let earlier = queued_after(applications, peer, actions.drop_last());
        match actions.last() {
            crate::session::clipboard::ActionView::ApplyRemote(transfer) => earlier.with(
                peer,
                transfer,
            ),
            _ => earlier,
        }
    }
}

/// The next waiting text goes to the native clipboard.
pub open spec fn application_step(state: ControllerRuntimeView) -> RuntimeStep {
    if !state.applications.is_waiting() {
        done(state, Seq::empty())
    } else if !state.clipboard_available {
        ended(
            state,
            crate::runtime::event::RuntimeFault::Native(
                "native clipboard service is unavailable"@,
            ),
        )
    } else {
        done(
            ControllerRuntimeView { applications: state.applications.started(), ..state },
            seq![
                crate::runtime::effect::EffectView::ApplyClipboard {
                    text: state.applications.queued[0].1.text,
                },
            ],
        )
    }
}

/// The actions of a clipboard session with a peer are carried out.
pub open spec fn clipboard_step(
    state: ControllerRuntimeView,
    peer: Seq<char>,
    actions: Seq<crate::session::clipboard::ActionView>,
) -> RuntimeStep {
    and_then(
        done(
            ControllerRuntimeView {
                applications: queued_after(state.applications, peer, actions),
                ..state
            },
            clipboard_effects(peer, actions),
        ),
        |next: ControllerRuntimeView| application_step(next),
    )
}

/// What comes of a step of the clipboard session with the peer at `place`.
pub open spec fn session_step(
    state: ControllerRuntimeView,
    place: int,
    step: crate::session::clipboard::ClipboardStep,
) -> RuntimeStep {
    match step.outcome {
        Err(error) => ended(state, crate::runtime::event::RuntimeFault::Clipboard(error)),
        Ok(actions) => clipboard_step(
            ControllerRuntimeView {
                peers: state.peers.update(
                    place,
                    crate::runtime::peers::PeerView {
                        clipboard: Some(step.state),
                        ..state.peers[place]
                    },
                ),
                ..state
            },
            state.peers[place].node,
            actions,
        ),
    }
}

/// A clipboard message of a connected peer.
pub open spec fn control_step(
    state: ControllerRuntimeView,
    place: int,
    control: crate::protocol::clipboard::ControlView,
) -> RuntimeStep {
    let peer = state.peers[place].node;
    match state.peers[place].clipboard {
        None => ended(
            state,
            crate::runtime::event::RuntimeFault::Session(
                "peer `"@ + peer + "` sent clipboard control without negotiating it"@,
            ),
        ),
        Some(session) => and_then(
            session_step(
                state,
                place,
                crate::session::clipboard::control_step(session, control),
            ),
            |next: ControllerRuntimeView|
                done(
                    next,
                    if control is Applied {
                        seq![
                            crate::runtime::effect::EffectView::Tell(
                                crate::runtime::event::EventView::ClipboardSynchronized {
                                    peer,
                                    received: false,
                                },
                            ),
                        ]
                    } else {
                        Seq::empty()
                    },
                ),
        ),
    }
}

/// A clipboard text of a peer, where it is connected in this session.
pub open spec fn transfer_step(
    state: ControllerRuntimeView,
    peer: Seq<char>,
    session_id: u128,
    transfer: crate::protocol::clipboard::TextView,
) -> RuntimeStep {
    match crate::runtime::peers::place_of(state.peers, peer) {
        None => done(state, Seq::empty()),
        Some(place) => if state.peers[place].session_id != session_id {
            done(state, Seq::empty())
        } else {
            match state.peers[place].clipboard {
                None => ended(
                    state,
                    crate::runtime::event::RuntimeFault::Session(
                        "peer `"@ + peer + "` sent clipboard data without negotiating it"@,
                    ),
                ),
                Some(session) => session_step(
                    state,
                    place,
                    crate::session::clipboard::transfer_step(session, transfer),
                ),
            }
        },
    }
}

/// The clipboard stream of a peer failed: nothing of the peer waits any more.
pub open spec fn stream_failure_step(
    state: ControllerRuntimeView,
    peer: Seq<char>,
    session_id: u128,
    reason: Seq<char>,
) -> RuntimeStep {
    match crate::runtime::peers::place_of(state.peers, peer) {
        None => done(state, Seq::empty()),
        Some(place) => if state.peers[place].session_id != session_id {
            done(state, Seq::empty())
        } else {
            done(
                ControllerRuntimeView {
                    peers: state.peers.update(
                        place,
                        crate::runtime::peers::PeerView { clipboard: None, ..state.peers[place] },
                    ),
                    applications: state.applications.without(peer),
                    ..state
                },
                seq![
                    crate::runtime::effect::told(
                        "Clipboard synchronization with `"@ + peer + "` stopped: "@ + reason,
                    ),
                ],
            )
        },
    }
}

/// The local clipboard changed: `remaining` peers from `from` on hear of it.
pub open spec fn change_step(
    state: ControllerRuntimeView,
    text: Seq<char>,
    from: int,
    remaining: nat,
) -> RuntimeStep
    decreases remaining,
{
    if remaining == 0 || from < 0 || from >= state.peers.len() {
        done(state, Seq::empty())
    } else {
        let first = match state.peers[from].clipboard {
            None => done(state, Seq::empty()),
            Some(session) => session_step(
                state,
                from,
                crate::session::clipboard::local_step(session, text),
            ),
        };
        match first.outcome {
            Err(fault) => first,
            Ok(effects) => {
                let rest = change_step(first.state, text, from + 1, (remaining - 1) as nat);
                match rest.outcome {
                    Err(fault) => rest,
                    Ok(more) => done(rest.state, effects + more),
                }
            },
        }
    }
}

/// The native clipboard took the text that it was handed.
pub open spec fn confirmation_step(state: ControllerRuntimeView) -> RuntimeStep {
    match state.applications.pending {
        None => ended(
            state,
            crate::runtime::event::RuntimeFault::Session(
                "native clipboard applied without a pending generation"@,
            ),
        ),
        Some((peer, generation)) => {
            let taken = ControllerRuntimeView {
                applications: crate::runtime::applications::ApplicationsView {
                    pending: None,
                    ..state.applications
                },
                ..state
            };
            match crate::runtime::peers::place_of(state.peers, peer) {
                None => done(taken, Seq::empty()),
                Some(place) => match state.peers[place].clipboard {
                    None => done(taken, Seq::empty()),
                    Some(session) => and_then(
                        session_step(
                            taken,
                            place,
                            crate::session::clipboard::confirmation_step(session, generation),
                        ),
                        |next: ControllerRuntimeView|
                            done(
                                next,
                                seq![
                                    crate::runtime::effect::EffectView::Tell(
                                        crate::runtime::event::EventView::ClipboardSynchronized {
                                            peer,
                                            received: true,
                                        },
                                    ),
                                ],
                            ),
                    ),
                },
            }
        },
    }
}

/// The native clipboard is gone: nothing waits for it any more.
pub open spec fn without_clipboard(state: ControllerRuntimeView) -> ControllerRuntimeView {
    ControllerRuntimeView {
        clipboard_available: false,
        applications: crate::runtime::applications::ApplicationsView::none(),
        ..state
    }
}

pub ghost enum ClipboardEventView {
    Ready { backend: BackendKind },
    Changed { text: Seq<char> },
    Applied,
    Failed { reason: Seq<char> },
    Stopped,
}

/// What an event of the native clipboard means here.
pub open spec fn clipboard_event_view(event: ClipboardServiceEvent) -> ClipboardEventView {
    match event {
        ClipboardServiceEvent::Ready { backend } => ClipboardEventView::Ready { backend },
        ClipboardServiceEvent::Changed { text } => ClipboardEventView::Changed { text: text@ },
        ClipboardServiceEvent::Applied => ClipboardEventView::Applied,
        ClipboardServiceEvent::Failed { operation, reason } => ClipboardEventView::Failed {
            reason: reason@,
        },
        ClipboardServiceEvent::Stopped => ClipboardEventView::Stopped,
    }
}

/// An event of the native clipboard.
pub open spec fn native_clipboard_step(
    state: ControllerRuntimeView,
    event: ClipboardEventView,
) -> RuntimeStep {
    match event {
        ClipboardEventView::Ready { backend } => done(
            state,
            seq![
                crate::runtime::effect::EffectView::Tell(
                    crate::runtime::event::EventView::ClipboardReady { backend },
                ),
            ],
        ),
        ClipboardEventView::Changed { text } => change_step(state, text, 0, state.peers.len()),
        ClipboardEventView::Applied => confirmation_step(state),
        ClipboardEventView::Failed { reason } => done(
            without_clipboard(state),
            seq![
                crate::runtime::effect::told("Clipboard synchronization stopped: "@ + reason),
                crate::runtime::effect::EffectView::StopClipboard,
            ],
        ),
        ClipboardEventView::Stopped => done(
            without_clipboard(state),
            seq![crate::runtime::effect::EffectView::StopClipboard],
        ),
    }
}

/// The desktop of a peer changed, and the arrangement became `arranged` or could
/// not follow for the reason given. The number of monitors is told as the peer
/// reported it.
pub open spec fn display_step(
    state: ControllerRuntimeView,
    peer: Seq<char>,
    monitor_count: u32,
    arranged: Result<Seq<crate::domain::arrangement::PlacementView>, Seq<char>>,
) -> RuntimeStep {
    match arranged {
        Err(reason) => done(
            state,
            seq![
                crate::runtime::effect::told(
                    "Could not apply the display reported by `"@ + peer + "`: "@ + reason,
                ),
            ],
        ),
        Ok(screens) => match crate::domain::arrangement::placement_of(screens, peer) {
            None => ended(
                state,
                crate::runtime::event::RuntimeFault::Session("unknown peer `"@ + peer + "`"@),
            ),
            Some(screen) => and_then(
                if screens != state.controller.screens {
                    moved(
                        state,
                        crate::session::controller::topology_step(state.controller, screens),
                    )
                } else {
                    done(
                        state,
                        seq![
                            crate::runtime::effect::EffectView::Send {
                                peer,
                                message: crate::protocol::message::SessionView::FocusChanged {
                                    focus_epoch: state.controller.epoch,
                                    target: state.controller.focus,
                                    entry_position: state.controller.position(),
                                },
                            },
                        ],
                    )
                },
                |next: ControllerRuntimeView|
                    done(
                        next,
                        seq![
                            crate::runtime::effect::EffectView::Tell(
                                crate::runtime::event::EventView::DisplayChanged {
                                    screen,
                                    monitor_count,
                                },
                            ),
                        ],
                    ),
            ),
        },
    }
}

/// What came of a resized arrangement, with the reason in words.
pub open spec fn arranged_or_reason(result: Result<Topology, ResizeError>) -> Result<
    Seq<crate::domain::arrangement::PlacementView>,
    Seq<char>,
> {
    match result {
        Ok(topology) => Ok(topology@),
        Err(error) => Err(error.text()),
    }
}

/// The desktop of this node changed, and the arrangement became `arranged` or
/// could not follow.
pub open spec fn desktop_step(
    state: ControllerRuntimeView,
    geometry: DesktopGeometry,
    arranged: Result<
        Seq<crate::domain::arrangement::PlacementView>,
        crate::runtime::activation::ResizeFault,
    >,
) -> RuntimeStep {
    let given_up = done(
        ControllerRuntimeView { pending: None, ..state },
        if state.pending is Some {
            seq![crate::runtime::effect::EffectView::ReleaseCapture]
        } else {
            Seq::empty()
        },
    );
    let news = |next: ControllerRuntimeView|
        done(
            next,
            seq![
                crate::runtime::effect::EffectView::Tell(
                    crate::runtime::event::EventView::LocalDesktopChanged { geometry },
                ),
            ],
        );
    match arranged {
        Err(fault) => ended(state, crate::runtime::event::RuntimeFault::Resize(fault)),
        Ok(screens) => if screens == state.controller.screens {
            and_then(given_up, news)
        } else {
            and_then(
                and_then(
                    given_up,
                    |next: ControllerRuntimeView|
                        moved(
                            next,
                            crate::session::controller::topology_step(next.controller, screens),
                        ),
                ),
                news,
            )
        },
    }
}

/// What came of a resized arrangement.
pub open spec fn arranged_or_fault(result: Result<Topology, ResizeError>) -> Result<
    Seq<crate::domain::arrangement::PlacementView>,
    crate::runtime::activation::ResizeFault,
> {
    match result {
        Ok(topology) => Ok(topology@),
        Err(error) => Err(error@),
    }
}

/// A message of the peer at `place` other than a change of its desktop.
pub open spec fn message_step(
    state: ControllerRuntimeView,
    place: int,
    message: crate::protocol::message::SessionView,
) -> RuntimeStep {
    let peer = state.peers[place].node;
    match message {
        crate::protocol::message::SessionView::InputAcknowledged { through_sequence } => {
            match crate::session::controller::acknowledged(
                state.controller,
                peer,
                through_sequence,
            ) {
                Err(error) => ended(
                    state,
                    crate::runtime::event::RuntimeFault::Controller(error),
                ),
                Ok((controller, settled)) => done(
                    ControllerRuntimeView { controller, ..state },
                    Seq::empty(),
                ),
            }
        },
        crate::protocol::message::SessionView::Heartbeat { nonce } => done(
            state,
            seq![
                crate::runtime::effect::EffectView::Offer {
                    peer,
                    message: crate::protocol::message::SessionView::HeartbeatAcknowledged {
                        nonce,
                    },
                },
            ],
        ),
        crate::protocol::message::SessionView::HeartbeatAcknowledged { nonce } => done(
            state,
            Seq::empty(),
        ),
        crate::protocol::message::SessionView::Clipboard(control) => control_step(
            state,
            place,
            control,
        ),
        crate::protocol::message::SessionView::Disconnect => departure_step(
            state,
            peer,
            state.peers[place].session_id,
            "Peer closed the session"@,
        ),
        crate::protocol::message::SessionView::DisplayChanged { .. }
        | crate::protocol::message::SessionView::FocusChanged { .. }
        | crate::protocol::message::SessionView::Input(_) => done(
            state,
            seq![crate::runtime::effect::told("Unexpected message from `"@ + peer + "`"@)],
        ),
    }
}

/// `result` and `after` are what a message of a peer comes to. Messages of
/// sessions that are over are passed over.
pub open spec fn is_message_step(
    state: ControllerRuntimeView,
    peer: Seq<char>,
    session_id: u128,
    message: crate::protocol::message::SessionView,
    result: Result<Vec<Effect>, RuntimeError>,
    after: ControllerRuntimeView,
) -> bool {
    if !crate::runtime::peers::is_active(state.peers, peer, session_id) {
        is_step(done(state, Seq::empty()), result, after)
    } else {
        match message {
            crate::protocol::message::SessionView::DisplayChanged { size, monitor_count } => {
                exists|resized: Result<Topology, ResizeError>| #[trigger]
                    crate::runtime::activation::is_resizing(
                        state.controller.screens,
                        peer,
                        crate::domain::display::LayoutView::whole(size),
                        resized,
                    ) && is_step(
                        display_step(state, peer, monitor_count, arranged_or_reason(resized)),
                        result,
                        after,
                    )
            },
            _ => is_step(
                message_step(
                    state,
                    crate::runtime::peers::place_of(state.peers, peer)->Some_0,
                    message,
                ),
                result,
                after,
            ),
        }
    }
}

impl ControllerRuntime {
    /// The arrangement and the behavior at its edges change.
    pub fn reconfigure(&mut self, topology: Topology, behavior: EdgeBehavior) -> (result: Result<
        Vec<Effect>,
        RuntimeError,
    >)
        requires
            old(self).is_valid(),
        ensures
            ({
                let step = reconfiguration_step(old(self)@, topology@, behavior);
                match step.outcome {
                    Err(fault) => result matches Err(error) && error@ == fault,
                    Ok(effects) => {
                        &&& final(self)@ == step.state
                        &&& result matches Ok(list) && exists|configured|
                            #[trigger] is_configuration(step.state, configured)
                                && crate::runtime::effect::effect_views(list@) == effects + seq![
                                configured,
                                crate::runtime::effect::focus_told(step.state.controller.focus),
                                crate::runtime::effect::EffectView::Tell(
                                    crate::runtime::event::EventView::ConfigurationApplied,
                                ),
                            ]
                    },
                }
            }),
            result is Ok ==> final(self).is_valid(),
    {
        self.pending = None;
        self.behavior = behavior;
        let ghost begun = self@;
        let mut effects = no_effects();
        let reconciled = self.controller.reconcile_topology(topology.clone());
        proof {
            lemma_rearrangement(begun.controller, topology@);
        }
        let actions = match reconciled {
            Ok(actions) => actions,
            Err(error) => {
                return Err(RuntimeError::Controller(error));
            },
        };
        self.deliver(actions, &mut effects);
        self.topology = topology;
        let ghost first = crate::runtime::effect::effect_views(effects@);
        self.dismiss_strangers(&mut effects);
        let ghost second = crate::runtime::effect::effect_views(effects@);
        let edges = self.captured_edges();
        let ghost configured = crate::runtime::effect::EffectView::ConfigureCapture {
            edges: edges@,
        };
        emit(&mut effects, Effect::ConfigureCapture { edges });
        tell_focus(&mut effects, self.controller.focus());
        emit(&mut effects, Effect::Tell(RuntimeEvent::ConfigurationApplied));
        proof {
            let step = reconfiguration_step(old(self)@, topology@, behavior);
            assert(second =~= step.outcome->Ok_0);
            assert(is_configuration(step.state, configured));
            assert(crate::runtime::effect::effect_views(effects@) =~= step.outcome->Ok_0 + seq![
                configured,
                crate::runtime::effect::focus_told(step.state.controller.focus),
                crate::runtime::effect::EffectView::Tell(
                    crate::runtime::event::EventView::ConfigurationApplied,
                ),
            ]);
        }
        Ok(effects)
    }

    fn dismiss_strangers(&mut self, effects: &mut Vec<Effect>)
        requires
            old(self).is_valid(),
        ensures
            ({
                let step = dismissal_from(old(self)@, 0, Seq::empty());
                &&& step.outcome is Ok
                &&& final(self)@ == step.state
                &&& crate::runtime::effect::effect_views(final(effects)@)
                    == crate::runtime::effect::effect_views(old(effects)@) + step.outcome->Ok_0
            }),
            final(self).is_valid(),
    {
        let ghost begun = self@;
        let ghost before = crate::runtime::effect::effect_views(effects@);
        let ghost mut told: Seq<crate::runtime::effect::EffectView> = Seq::empty();
        let mut index: usize = 0;
        assert(before + told =~= before);
        while index < self.peers.len()
            invariant
                index <= self.peers@.len(),
                self.is_valid(),
                dismissal_from(begun, 0, Seq::empty()) == dismissal_from(
                    self@,
                    index as int,
                    told,
                ),
                crate::runtime::effect::effect_views(effects@) == before + told,
            decreases self.peers@.len() - index,
        {
            assert(self@.peers[index as int] == self.peers@[index as int]@);
            if self.topology.screen(&self.peers[index].node).is_some() {
                index += 1;
            } else {
                let peer = leave(&mut self.peers, index);
                emit(effects, Effect::Dismiss { peer: peer.node.clone(), farewell: true });
                emit(
                    effects,
                    Effect::Tell(
                        RuntimeEvent::Disconnected {
                            peer: peer.node,
                            reason: "Removed from the topology".to_owned(),
                        },
                    ),
                );
                proof {
                    told = told.push(
                        crate::runtime::effect::EffectView::Dismiss {
                            peer: peer@.node,
                            farewell: true,
                        },
                    ).push(
                        crate::runtime::effect::EffectView::Tell(
                            crate::runtime::event::EventView::Disconnected {
                                peer: peer@.node,
                                reason: "Removed from the topology"@,
                            },
                        ),
                    );
                    assert(crate::runtime::effect::effect_views(effects@) =~= before + told);
                }
            }
        }
    }

    /// The desktop of this node changed.
    pub fn desktop_changed(&mut self, geometry: DesktopGeometry) -> (result: Result<
        Vec<Effect>,
        RuntimeError,
    >)
        requires
            old(self).is_valid(),
        ensures
            exists|resized: Result<Topology, ResizeError>| #[trigger]
                crate::runtime::activation::is_resizing(
                    old(self)@.controller.screens,
                    old(self)@.controller.local_node,
                    crate::domain::display::LayoutView::whole(geometry.size),
                    resized,
                ) && is_step(
                    desktop_step(old(self)@, geometry, arranged_or_fault(resized)),
                    result,
                    final(self)@,
                ),
            result is Ok ==> final(self).is_valid(),
    {
        let mut effects = no_effects();
        if self.pending.is_some() {
            self.pending = None;
            emit(&mut effects, Effect::ReleaseCapture);
        }
        let ghost first = crate::runtime::effect::effect_views(effects@);
        let ghost given_up = self@;
        let layout = DesktopLayout::single(geometry.size);
        let resized = resize_topology_screen(&self.topology, &self.local_node, &layout);
        let ghost answer = resized;
        let updated = match resized {
            Ok(updated) => updated,
            Err(error) => {
                return Err(RuntimeError::Resize(error));
            },
        };
        let ghost screens = updated@;
        if updated != self.topology {
            let reconciled = self.controller.reconcile_topology(updated.clone());
            proof {
                lemma_rearrangement(given_up.controller, screens);
            }
            if let Err(error) = self.finish_move(reconciled, &mut effects) {
                return Err(error);
            }
            self.topology = updated;
        }
        emit(&mut effects, Effect::Tell(RuntimeEvent::LocalDesktopChanged { geometry }));
        proof {
            let step = desktop_step(old(self)@, geometry, arranged_or_fault(answer));
            assert(crate::runtime::effect::effect_views(effects@) =~= step.outcome->Ok_0);
        }
        Ok(effects)
    }

    /// A message of a peer came in.
    pub fn message_received(&mut self, peer: &NodeId, session_id: u128, message: Session) -> (
    result: Result<Vec<Effect>, RuntimeError>)
        requires
            old(self).is_valid(),
        ensures
            is_message_step(
                old(self)@,
                peer@,
                session_id,
                message@,
                result,
                final(self)@,
            ),
            result is Ok ==> final(self).is_valid(),
    {
        let mut effects = no_effects();
        let place = match find_peer(&self.peers, peer) {
            Some(place) => place,
            None => {
                return Ok(effects);
            },
        };
        assert(self@.peers[place as int] == self.peers@[place as int]@);
        if self.peers[place].session_id != session_id {
            return Ok(effects);
        }
        match message {
            Session::DisplayChanged { size, monitor_count } => {
                let layout = DesktopLayout::single(size);
                let resized = resize_topology_screen(&self.topology, peer, &layout);
                let ghost answer = resized;
                let result = self.take_display(peer, monitor_count.get(), resized);
                assert(crate::runtime::activation::is_resizing(
                    old(self)@.controller.screens,
                    peer@,
                    crate::domain::display::LayoutView::whole(size),
                    answer,
                ));
                assert(is_step(
                    display_step(old(self)@, peer@, monitor_count@, arranged_or_reason(answer)),
                    result,
                    self@,
                ));
                assert(message@->size == size && message@->monitor_count == monitor_count@);
                result
            },
            Session::InputAcknowledged { through_sequence } => {
                match self.controller.acknowledge(peer, through_sequence) {
                    Ok(_) => Ok(effects),
                    Err(error) => Err(RuntimeError::Controller(error)),
                }
            },
            Session::Heartbeat { nonce } => {
                emit(
                    &mut effects,
                    Effect::Offer {
                        peer: peer.clone(),
                        message: Session::HeartbeatAcknowledged { nonce },
                    },
                );
                assert(crate::runtime::effect::effect_views(effects@) =~= message_step(
                    old(self)@,
                    place as int,
                    message@,
                ).outcome->Ok_0);
                Ok(effects)
            },
            Session::HeartbeatAcknowledged { .. } => Ok(effects),
            Session::Clipboard(control) => self.control_received(place, control),
            Session::Disconnect => self.peer_disconnected(
                peer,
                session_id,
                "Peer closed the session".to_owned(),
            ),
            Session::FocusChanged { .. } | Session::Input(_) => {
                tell_error(&mut effects, node_text("Unexpected message from `", peer, "`"));
                assert(crate::runtime::effect::effect_views(effects@) =~= message_step(
                    old(self)@,
                    place as int,
                    message@,
                ).outcome->Ok_0);
                Ok(effects)
            },
        }
    }

    /// A peer reported its desktop, and this is what the arrangement became.
    fn take_display(
        &mut self,
        peer: &NodeId,
        monitor_count: u32,
        resized: Result<Topology, ResizeError>,
    ) -> (result: Result<Vec<Effect>, RuntimeError>)
        requires
            old(self).is_valid(),
        ensures
            is_step(
                display_step(old(self)@, peer@, monitor_count, arranged_or_reason(resized)),
                result,
                final(self)@,
            ),
            result is Ok ==> final(self).is_valid(),
    {
        let mut effects = no_effects();
        let updated = match resized {
            Ok(updated) => updated,
            Err(error) => {
                let mut text = node_text(
                    "Could not apply the display reported by `",
                    peer,
                    "`: ",
                );
                let reason = error.message();
                text.append(reason.as_str());
                tell_error(&mut effects, text);
                proof {
                    assert(text@ =~= "Could not apply the display reported by `"@ + peer@ + "`: "@
                        + reason@);
                    assert(crate::runtime::effect::effect_views(effects@) =~= display_step(
                        old(self)@,
                        peer@,
                        monitor_count,
                        arranged_or_reason(resized),
                    ).outcome->Ok_0);
                }
                return Ok(effects);
            },
        };
        let ghost screens = updated@;
        let screen = match updated.screen(peer) {
            Some(screen) => screen.clone(),
            None => {
                return Err(RuntimeError::Session(node_text("unknown peer `", peer, "`")));
            },
        };
        if updated != self.topology {
            let reconciled = self.controller.reconcile_topology(updated.clone());
            proof {
                lemma_rearrangement(old(self)@.controller, screens);
            }
            if let Err(error) = self.finish_move(reconciled, &mut effects) {
                return Err(error);
            }
            self.topology = updated;
        } else {
            let message = Session::FocusChanged {
                focus_epoch: self.controller.focus_epoch(),
                target: self.controller.focus().clone(),
                entry_position: self.controller.focus_position(),
            };
            emit(&mut effects, Effect::Send { peer: peer.clone(), message });
        }
        emit(
            &mut effects,
            Effect::Tell(RuntimeEvent::DisplayChanged { screen, monitor_count }),
        );
        assert(crate::runtime::effect::effect_views(effects@) =~= display_step(
            old(self)@,
            peer@,
            monitor_count,
            arranged_or_reason(resized),
        ).outcome->Ok_0);
        Ok(effects)
    }

    /// The next waiting text goes to the native clipboard.
    fn start_application(&mut self, effects: &mut Vec<Effect>) -> (outcome: Result<
        (),
        RuntimeError,
    >)
        requires
            old(self).is_valid(),
        ensures
            match application_step(old(self)@).outcome {
                Err(fault) => outcome matches Err(error) && error@ == fault,
                Ok(more) => outcome is Ok && final(self)@ == application_step(old(self)@).state
                    && crate::runtime::effect::effect_views(final(effects)@)
                    == crate::runtime::effect::effect_views(old(effects)@) + more,
            },
            outcome is Ok ==> final(self).is_valid(),
    {
        let ghost before = crate::runtime::effect::effect_views(effects@);
        match self.applications.start_next(self.clipboard_available) {
            Ok(Some(text)) => {
                emit(effects, Effect::ApplyClipboard { text });
                assert(crate::runtime::effect::effect_views(effects@) =~= before
                    + application_step(old(self)@).outcome->Ok_0);
                Ok(())
            },
            Ok(None) => {
                assert(before + Seq::<crate::runtime::effect::EffectView>::empty() =~= before);
                Ok(())
            },
            Err(error) => Err(error),
        }
    }

    fn apply_clipboard_actions(
        &mut self,
        peer: &NodeId,
        actions: Vec<ClipboardAction>,
        effects: &mut Vec<Effect>,
    ) -> (outcome: Result<(), RuntimeError>)
        requires
            old(self).is_valid(),
        ensures
            ({
                let step = clipboard_step(
                    old(self)@,
                    peer@,
                    crate::session::clipboard::action_views(actions@),
                );
                match step.outcome {
                    Err(fault) => outcome matches Err(error) && error@ == fault,
                    Ok(more) => outcome is Ok && final(self)@ == step.state
                        && crate::runtime::effect::effect_views(final(effects)@)
                        == crate::runtime::effect::effect_views(old(effects)@) + more,
                }
            }),
            outcome is Ok ==> final(self).is_valid(),
    {
        let ghost begun = self@;
        let ghost before = crate::runtime::effect::effect_views(effects@);
        let ghost views = crate::session::clipboard::action_views(actions@);
        let mut index: usize = 0;
        proof {
            assert(views.take(0) =~= Seq::<crate::session::clipboard::ActionView>::empty());
            assert(before + clipboard_effects(peer@, views.take(0)) =~= before);
        }
        while index < actions.len()
            invariant
                index <= actions@.len(),
                self.is_valid(),
                views == crate::session::clipboard::action_views(actions@),
                self@ == (ControllerRuntimeView {
                    applications: queued_after(
                        begun.applications,
                        peer@,
                        views.take(index as int),
                    ),
                    ..begun
                }),
                crate::runtime::effect::effect_views(effects@) == before + clipboard_effects(
                    peer@,
                    views.take(index as int),
                ),
            decreases actions@.len() - index,
        {
            proof {
                let longer = views.take(index + 1);
                assert(longer.drop_last() =~= views.take(index as int));
                assert(longer.last() == actions@[index as int]@);
            }
            match &actions[index] {
                ClipboardAction::SendControl(control) => emit(
                    effects,
                    Effect::Send {
                        peer: peer.clone(),
                        message: Session::Clipboard(control.clone()),
                    },
                ),
                ClipboardAction::SendTransfer(transfer) => emit(
                    effects,
                    Effect::Transfer { peer: peer.clone(), transfer: transfer.clone() },
                ),
                ClipboardAction::ApplyRemote(transfer) => {
                    self.applications.enqueue(peer.clone(), transfer.clone());
                },
            }
            assert(crate::runtime::effect::effect_views(effects@) =~= before + clipboard_effects(
                peer@,
                views.take(index + 1),
            ));
            index += 1;
        }
        assert(views.take(index as int) =~= views);
        let outcome = self.start_application(effects);
        proof {
            if outcome is Ok {
                let queued = ControllerRuntimeView {
                    applications: queued_after(begun.applications, peer@, views),
                    ..begun
                };
                let more = application_step(queued).outcome->Ok_0;
                assert((before + clipboard_effects(peer@, views)) + more =~= before + (
                clipboard_effects(peer@, views) + more));
            }
        }
        outcome
    }

    /// The session of the peer at `place` took a step with this result.
    fn finish_clipboard(
        &mut self,
        place: usize,
        session: ClipboardSession,
        result: Result<Vec<ClipboardAction>, ClipboardSessionError>,
    ) -> (outcome: Result<Vec<Effect>, RuntimeError>)
        requires
            old(self).is_valid(),
            place < old(self)@.peers.len(),
        ensures
            is_step(
                session_step(
                    old(self)@,
                    place as int,
                    crate::session::clipboard::ClipboardStep {
                        state: session@,
                        outcome: crate::session::clipboard::outcome_of(result),
                    },
                ),
                outcome,
                final(self)@,
            ),
            outcome is Ok ==> final(self).is_valid(),
    {
        let actions = match result {
            Ok(actions) => actions,
            Err(error) => {
                return Err(RuntimeError::Clipboard(error));
            },
        };
        assert(self@.peers[place as int] == self.peers@[place as int]@);
        let peer = self.peers[place].node.clone();
        set_clipboard(&mut self.peers, place, Some(session));
        let mut effects = no_effects();
        match self.apply_clipboard_actions(&peer, actions, &mut effects) {
            Ok(()) => {
                proof {
                    let step = session_step(
                        old(self)@,
                        place as int,
                        crate::session::clipboard::ClipboardStep {
                            state: session@,
                            outcome: crate::session::clipboard::outcome_of(result),
                        },
                    );
                    assert(crate::runtime::effect::effect_views(effects@) =~= step.outcome->Ok_0);
                }
                Ok(effects)
            },
            Err(error) => Err(error),
        }
    }

    fn control_received(&mut self, place: usize, control: ClipboardControl) -> (result: Result<
        Vec<Effect>,
        RuntimeError,
    >)
        requires
            old(self).is_valid(),
            place < old(self)@.peers.len(),
        ensures
            is_step(control_step(old(self)@, place as int, control@), result, final(self)@),
            result is Ok ==> final(self).is_valid(),
    {
        let acknowledged = match &control {
            ClipboardControl::Applied { .. } => true,
            ClipboardControl::Offered(_) => false,
        };
        assert(self@.peers[place as int] == self.peers@[place as int]@);
        let peer = self.peers[place].node.clone();
        let ghost begun = self@;
        let taken = take_clipboard(&mut self.peers, place);
        let mut session = match taken {
            Some(session) => session,
            None => {
                return Err(
                    RuntimeError::Session(
                        node_text(
                            "peer `",
                            &peer,
                            "` sent clipboard control without negotiating it",
                        ),
                    ),
                );
            },
        };
        let received = session.receive_control(control);
        let ghost step = crate::session::clipboard::control_step(
            begun.peers[place as int].clipboard->Some_0,
            control@,
        );
        let ghost between = self@;
        proof {
            assert(between.peers.update(
                place as int,
                crate::runtime::peers::PeerView {
                    clipboard: Some(session@),
                    ..between.peers[place as int]
                },
            ) =~= begun.peers.update(
                place as int,
                crate::runtime::peers::PeerView {
                    clipboard: Some(session@),
                    ..begun.peers[place as int]
                },
            ));
        }
        let mut effects = match self.finish_clipboard(place, session, received) {
            Ok(effects) => effects,
            Err(error) => {
                return Err(error);
            },
        };
        let ghost first = crate::runtime::effect::effect_views(effects@);
        if acknowledged {
            emit(
                &mut effects,
                Effect::Tell(RuntimeEvent::ClipboardSynchronized { peer, received: false }),
            );
        }
        proof {
            assert(first == session_step(begun, place as int, step).outcome->Ok_0);
            assert(crate::runtime::effect::effect_views(effects@) =~= control_step(
                begun,
                place as int,
                control@,
            ).outcome->Ok_0);
        }
        Ok(effects)
    }

    /// A clipboard text of a peer came in.
    pub fn transfer_received(
        &mut self,
        peer: &NodeId,
        session_id: u128,
        transfer: ClipboardText,
    ) -> (result: Result<Vec<Effect>, RuntimeError>)
        requires
            old(self).is_valid(),
        ensures
            is_step(
                transfer_step(old(self)@, peer@, session_id, transfer@),
                result,
                final(self)@,
            ),
            result is Ok ==> final(self).is_valid(),
    {
        let place = match find_peer(&self.peers, peer) {
            Some(place) => place,
            None => {
                return Ok(no_effects());
            },
        };
        assert(self@.peers[place as int] == self.peers@[place as int]@);
        if self.peers[place].session_id != session_id {
            return Ok(no_effects());
        }
        let ghost begun = self@;
        let taken = take_clipboard(&mut self.peers, place);
        let mut session = match taken {
            Some(session) => session,
            None => {
                return Err(
                    RuntimeError::Session(
                        node_text(
                            "peer `",
                            peer,
                            "` sent clipboard data without negotiating it",
                        ),
                    ),
                );
            },
        };
        let received = session.receive_transfer(transfer);
        let ghost between = self@;
        proof {
            assert(between.peers.update(
                place as int,
                crate::runtime::peers::PeerView {
                    clipboard: Some(session@),
                    ..between.peers[place as int]
                },
            ) =~= begun.peers.update(
                place as int,
                crate::runtime::peers::PeerView {
                    clipboard: Some(session@),
                    ..begun.peers[place as int]
                },
            ));
        }
        self.finish_clipboard(place, session, received)
    }

    /// The clipboard stream of a peer failed.
    pub fn clipboard_stream_failed(&mut self, peer: &NodeId, session_id: u128, reason: &str) -> (
    effects: Vec<Effect>)
        requires
            old(self).is_valid(),
        ensures
            ({
                let step = stream_failure_step(old(self)@, peer@, session_id, reason@);
                &&& final(self)@ == step.state
                &&& crate::runtime::effect::effect_views(effects@) == step.outcome->Ok_0
            }),
            final(self).is_valid(),
    {
        let mut effects = no_effects();
        let place = match find_peer(&self.peers, peer) {
            Some(place) => place,
            None => {
                return effects;
            },
        };
        assert(self@.peers[place as int] == self.peers@[place as int]@);
        if self.peers[place].session_id != session_id {
            return effects;
        }
        set_clipboard(&mut self.peers, place, None);
        self.applications.forget(peer);
        let mut text = node_text("Clipboard synchronization with `", peer, "` stopped: ");
        text.append(reason);
        assert(text@ =~= "Clipboard synchronization with `"@ + peer@ + "` stopped: "@ + reason@);
        tell_error(&mut effects, text);
        assert(crate::runtime::effect::effect_views(effects@) =~= stream_failure_step(
            old(self)@,
            peer@,
            session_id,
            reason@,
        ).outcome->Ok_0);
        effects
    }

    /// The native clipboard told something.
    pub fn clipboard_event(&mut self, event: ClipboardServiceEvent) -> (result: Result<
        Vec<Effect>,
        RuntimeError,
    >)
        requires
            old(self).is_valid(),
        ensures
            is_step(
                native_clipboard_step(old(self)@, clipboard_event_view(event)),
                result,
                final(self)@,
            ),
            result is Ok ==> final(self).is_valid(),
    {
        let mut effects = no_effects();
        match event {
            ClipboardServiceEvent::Ready { backend } => {
                emit(&mut effects, Effect::Tell(RuntimeEvent::ClipboardReady { backend }));
            },
            ClipboardServiceEvent::Changed { text } => {
                return self.clipboard_changed(text);
            },
            ClipboardServiceEvent::Applied => {
                return self.clipboard_applied();
            },
            ClipboardServiceEvent::Failed { operation: _, reason } => {
                let mut text = "Clipboard synchronization stopped: ".to_owned();
                text.append(reason.as_str());
                tell_error(&mut effects, text);
                emit(&mut effects, Effect::StopClipboard);
                self.clipboard_available = false;
                self.applications = ClipboardApplications::new();
            },
            ClipboardServiceEvent::Stopped => {
                emit(&mut effects, Effect::StopClipboard);
                self.clipboard_available = false;
                self.applications = ClipboardApplications::new();
            },
        }
        assert(crate::runtime::effect::effect_views(effects@) =~= native_clipboard_step(
            old(self)@,
            clipboard_event_view(event),
        ).outcome->Ok_0);
        Ok(effects)
    }

    fn clipboard_changed(&mut self, text: String) -> (result: Result<Vec<Effect>, RuntimeError>)
        requires
            old(self).is_valid(),
        ensures
            is_step(
                change_step(old(self)@, text@, 0, old(self)@.peers.len()),
                result,
                final(self)@,
            ),
            result is Ok ==> final(self).is_valid(),
    {
        let ghost expected = change_step(self@, text@, 0, self@.peers.len());
        let count: usize = self.peers.len();
        let mut effects = no_effects();
        let mut place: usize = 0;
        proof {
            lemma_nothing_before(self@, text@, 0, self@.peers.len());
        }
        while place < count
            invariant
                place <= count,
                count == self.peers@.len(),
                self.is_valid(),
                expected == change_step(old(self)@, text@, 0, old(self)@.peers.len()),
                is_rest_of(
                    expected,
                    crate::runtime::effect::effect_views(effects@),
                    change_step(self@, text@, place as int, (count - place) as nat),
                ),
            decreases count - place,
        {
            let ghost begun = self@;
            let ghost so_far = crate::runtime::effect::effect_views(effects@);
            assert(begun.peers[place as int] == self.peers@[place as int]@);
            let taken = take_clipboard(&mut self.peers, place);
            match taken {
                Some(session) => {
                    let mut session = session;
                    let ghost step = crate::session::clipboard::local_step(session@, text@);
                    let changed = session.local_changed(text.clone());
                    let ghost between = self@;
                    proof {
                        assert(between.peers.update(
                            place as int,
                            crate::runtime::peers::PeerView {
                                clipboard: Some(session@),
                                ..between.peers[place as int]
                            },
                        ) =~= begun.peers.update(
                            place as int,
                            crate::runtime::peers::PeerView {
                                clipboard: Some(session@),
                                ..begun.peers[place as int]
                            },
                        ));
                    }
                    let more = match self.finish_clipboard(place, session, changed) {
                        Ok(more) => more,
                        Err(error) => {
                            return Err(error);
                        },
                    };
                    proof {
                        lemma_session_keeps_peers(begun, place as int, step);
                    }
                    append_effects(&mut effects, more);
                },
                None => {
                    proof {
                        assert(self@.peers =~= begun.peers);
                        assert(so_far + Seq::<crate::runtime::effect::EffectView>::empty()
                            =~= so_far);
                    }
                },
            }
            proof {
                let first = match begun.peers[place as int].clipboard {
                    None => done(begun, Seq::empty()),
                    Some(session) => session_step(
                        begun,
                        place as int,
                        crate::session::clipboard::local_step(session, text@),
                    ),
                };
                lemma_rest_goes_on(
                    expected,
                    so_far,
                    first.outcome->Ok_0,
                    change_step(self@, text@, place + 1, (count - place - 1) as nat),
                );
            }
            place += 1;
        }
        proof {
            let rest = change_step(self@, text@, place as int, 0);
            assert(crate::runtime::effect::effect_views(effects@)
                + Seq::<crate::runtime::effect::EffectView>::empty()
                =~= crate::runtime::effect::effect_views(effects@));
        }
        Ok(effects)
    }

    fn clipboard_applied(&mut self) -> (result: Result<Vec<Effect>, RuntimeError>)
        requires
            old(self).is_valid(),
        ensures
            is_step(confirmation_step(old(self)@), result, final(self)@),
            result is Ok ==> final(self).is_valid(),
    {
        let (peer, generation) = match self.applications.take_pending() {
            Some(pending) => pending,
            None => {
                return Err(
                    RuntimeError::Session(
                        "native clipboard applied without a pending generation".to_owned(),
                    ),
                );
            },
        };
        let ghost pending_taken = self@;
        let place = match find_peer(&self.peers, &peer) {
            Some(place) => place,
            None => {
                return Ok(no_effects());
            },
        };
        assert(self@.peers[place as int] == self.peers@[place as int]@);
        let taken = take_clipboard(&mut self.peers, place);
        let mut session = match taken {
            Some(session) => session,
            None => {
                assert(self@.peers =~= pending_taken.peers);
                return Ok(no_effects());
            },
        };
        let ghost step = crate::session::clipboard::confirmation_step(session@, generation@);
        let confirmed = session.confirm_applied(&generation);
        let ghost between = self@;
        proof {
            assert(between.peers.update(
                place as int,
                crate::runtime::peers::PeerView {
                    clipboard: Some(session@),
                    ..between.peers[place as int]
                },
            ) =~= pending_taken.peers.update(
                place as int,
                crate::runtime::peers::PeerView {
                    clipboard: Some(session@),
                    ..pending_taken.peers[place as int]
                },
            ));
        }
        let mut effects = match self.finish_clipboard(place, session, confirmed) {
            Ok(effects) => effects,
            Err(error) => {
                return Err(error);
            },
        };
        let ghost first = crate::runtime::effect::effect_views(effects@);
        emit(
            &mut effects,
            Effect::Tell(RuntimeEvent::ClipboardSynchronized { peer, received: true }),
        );
        proof {
            assert(first == session_step(pending_taken, place as int, step).outcome->Ok_0);
            assert(crate::runtime::effect::effect_views(effects@) =~= confirmation_step(
                old(self)@,
            ).outcome->Ok_0);
        }
        Ok(effects)
    }

    /// The next waiting text goes to the native clipboard, after its events were
    /// taken.
    pub fn clipboard_idle(&mut self) -> (result: Result<Vec<Effect>, RuntimeError>)
        requires
            old(self).is_valid(),
        ensures
            is_step(application_step(old(self)@), result, final(self)@),
            result is Ok ==> final(self).is_valid(),
    {
        let mut effects = no_effects();
        match self.start_application(&mut effects) {
            Ok(()) => {
                assert(crate::runtime::effect::effect_views(effects@) =~= application_step(
                    old(self)@,
                ).outcome->Ok_0);
                Ok(effects)
            },
            Err(error) => Err(error),
        }
    }
}

fn append_effects(effects: &mut Vec<Effect>, more: Vec<Effect>)
    ensures
        crate::runtime::effect::effect_views(final(effects)@)
            == crate::runtime::effect::effect_views(old(effects)@)
            + crate::runtime::effect::effect_views(more@),
{
    let ghost before = crate::runtime::effect::effect_views(effects@);
    let mut more = more;
    let ghost added = crate::runtime::effect::effect_views(more@);
    effects.append(&mut more);
    assert(crate::runtime::effect::effect_views(effects@) =~= before + added);
}

/// `whole` does what was done so far and then what `rest` does.
pub open spec fn is_rest_of(
    whole: RuntimeStep,
    so_far: Seq<crate::runtime::effect::EffectView>,
    rest: RuntimeStep,
) -> bool {
    match rest.outcome {
        Err(fault) => whole.outcome == Err::<
            Seq<crate::runtime::effect::EffectView>,
            crate::runtime::event::RuntimeFault,
        >(fault),
        Ok(more) => whole == done(rest.state, so_far + more),
    }
}

proof fn lemma_nothing_before(
    state: ControllerRuntimeView,
    text: Seq<char>,
    from: int,
    remaining: nat,
)
    ensures
        is_rest_of(
            change_step(state, text, from, remaining),
            Seq::empty(),
            change_step(state, text, from, remaining),
        ),
{
    let step = change_step(state, text, from, remaining);
    if let Ok(effects) = step.outcome {
        assert(Seq::<crate::runtime::effect::EffectView>::empty() + effects =~= effects);
    }
}

proof fn lemma_rest_goes_on(
    whole: RuntimeStep,
    so_far: Seq<crate::runtime::effect::EffectView>,
    effects: Seq<crate::runtime::effect::EffectView>,
    rest: RuntimeStep,
)
    requires
        is_rest_of(
            whole,
            so_far,
            match rest.outcome {
                Err(fault) => rest,
                Ok(more) => done(rest.state, effects + more),
            },
        ),
    ensures
        is_rest_of(whole, so_far + effects, rest),
{
    if let Ok(more) = rest.outcome {
        assert(so_far + (effects + more) =~= (so_far + effects) + more);
    }
}

proof fn lemma_session_keeps_peers(
    state: ControllerRuntimeView,
    place: int,
    step: crate::session::clipboard::ClipboardStep,
)
    requires
        0 <= place < state.peers.len(),
    ensures
        session_step(state, place, step).state.peers.len() == state.peers.len(),
{
}

proof fn lemma_flush_keeps_arrangement(state: crate::session::controller::ControllerView)
    ensures
        crate::session::controller::flush_step(state).state.screens == state.screens,
        crate::session::controller::flush_step(state).state.local_node == state.local_node,
{
}

proof fn lemma_return_keeps_arrangement(state: crate::session::controller::ControllerView)
    ensures
        crate::session::controller::return_step(state).state.screens == state.screens,
        crate::session::controller::return_step(state).state.local_node == state.local_node,
{
}

proof fn lemma_activation_keeps_arrangement(
    state: crate::session::controller::ControllerView,
    edge: Edge,
    offset: u32,
)
    ensures
        crate::session::controller::activation_step(state, edge, offset).state.screens
            == state.screens,
        crate::session::controller::activation_step(state, edge, offset).state.local_node
            == state.local_node,
{
    lemma_flush_keeps_arrangement(state);
}

proof fn lemma_input_keeps_arrangement(
    state: crate::session::controller::ControllerView,
    event: InputEvent,
)
    ensures
        crate::session::controller::input_step(state, event).state.screens == state.screens,
        crate::session::controller::input_step(state, event).state.local_node == state.local_node,
{
    lemma_flush_keeps_arrangement(state);
    let sent = crate::session::controller::flush_step(state).state;
    lemma_flush_keeps_arrangement(sent);
}

proof fn lemma_rearrangement(
    state: crate::session::controller::ControllerView,
    screens: Seq<crate::domain::arrangement::PlacementView>,
)
    ensures
        crate::session::controller::topology_step(state, screens).outcome is Ok ==> {
            &&& crate::session::controller::topology_step(state, screens).state.screens == screens
            &&& crate::session::controller::topology_step(state, screens).state.local_node
                == state.local_node
        },
{
    lemma_flush_keeps_arrangement(state);
}

} // verus!
