//! The state of the session as the window shows it.

use vstd::prelude::*;
use vstd::string::*;

use crate::domain::geometry::Size;
use crate::domain::identity::NodeId;
use crate::domain::node_map::NodeMap;
use crate::runtime::event::{RuntimeEvent, RuntimeRole};

verus! {

#[derive(Clone, Copy, Debug, PartialEq, Eq, Structural)]
pub enum SessionPhase {
    Stopped,
    Starting,
    Listening,
    Connecting,
    Connected,
    Failed,
}

/// How something is shown.
#[derive(Clone, Copy, Debug, PartialEq, Eq, Structural)]
pub enum Tone {
    Plain,
    Muted,
    Accent,
    Success,
    Warning,
    Danger,
}

/// The desktop of another node.
#[derive(Clone, Copy, Debug, PartialEq, Eq, Structural)]
pub struct RemoteDisplay {
    pub size: Size,
    pub monitor_count: u32,
}

#[derive(Debug)]
pub struct SessionState {
    pub phase: SessionPhase,
    pub role: Option<RuntimeRole>,
    pub connected: NodeMap<u128>,
    pub displays: NodeMap<RemoteDisplay>,
    pub focus: Option<NodeId>,
    pub agent_controlled: bool,
    pub native_ready: bool,
    pub clipboard_ready: bool,
    pub last_error: Option<String>,
}

pub ghost struct StatusView {
    pub phase: SessionPhase,
    pub role: Option<RuntimeRole>,
    /// The connected nodes with their sessions.
    pub connected: Map<Seq<char>, u128>,
    pub displays: Map<Seq<char>, RemoteDisplay>,
    pub focus: Option<Seq<char>>,
    pub agent_controlled: bool,
    pub native_ready: bool,
    pub clipboard_ready: bool,
    pub last_error: Option<Seq<char>>,
}

pub open spec fn optional_node(node: Option<NodeId>) -> Option<Seq<char>> {
    match node {
        Some(node) => Some(node@),
        None => None,
    }
}

impl View for SessionState {
    type V = StatusView;

    open spec fn view(&self) -> StatusView {
        StatusView {
            phase: self.phase,
            role: self.role,
            connected: self.connected@,
            displays: self.displays@,
            focus: optional_node(self.focus),
            agent_controlled: self.agent_controlled,
            native_ready: self.native_ready,
            clipboard_ready: self.clipboard_ready,
            last_error: crate::domain::display::optional_text(self.last_error),
        }
    }
}

impl StatusView {
    /// Nothing runs, and nothing has happened.
    pub open spec fn idle() -> StatusView {
        StatusView {
            phase: SessionPhase::Stopped,
            role: None,
            connected: Map::empty(),
            displays: Map::empty(),
            focus: None,
            agent_controlled: false,
            native_ready: false,
            clipboard_ready: false,
            last_error: None,
        }
    }

    /// The keyboard and pointer of this node act on a connected one.
    pub open spec fn controls_remote(self) -> bool {
        match self.focus {
            Some(node) => self.connected.dom().contains(node),
            None => false,
        }
    }

    /// The state after an error.
    pub open spec fn with_error(self, message: Seq<char>) -> StatusView {
        StatusView {
            last_error: Some(message),
            phase: if self.phase is Stopped {
                SessionPhase::Failed
            } else {
                self.phase
            },
            ..self
        }
    }

    /// The state after an event of the session.
    pub open spec fn after(self, event: crate::runtime::event::EventView) -> StatusView {
        match event {
            crate::runtime::event::EventView::Starting { role } => StatusView {
                phase: SessionPhase::Starting,
                role: Some(role),
                ..StatusView::idle()
            },
            crate::runtime::event::EventView::Listening { address } => StatusView {
                phase: SessionPhase::Listening,
                ..self
            },
            crate::runtime::event::EventView::Connecting { peer, address, attempt } => StatusView {
                phase: SessionPhase::Connecting,
                ..self
            },
            crate::runtime::event::EventView::Connected { peer, session_id } => StatusView {
                connected: self.connected.insert(peer, session_id),
                phase: SessionPhase::Connected,
                last_error: None,
                ..self
            },
            crate::runtime::event::EventView::Disconnected { peer, reason } => StatusView {
                connected: self.connected.remove(peer),
                displays: self.displays.remove(peer),
                agent_controlled: false,
                last_error: Some(peer + ": "@ + reason),
                phase: match self.role {
                    Some(RuntimeRole::Controller) => SessionPhase::Listening,
                    Some(RuntimeRole::Agent) => SessionPhase::Connecting,
                    None => SessionPhase::Stopped,
                },
                ..self
            },
            crate::runtime::event::EventView::NativeReady { backend } => StatusView {
                native_ready: true,
                ..self
            },
            crate::runtime::event::EventView::ClipboardReady { backend } => StatusView {
                clipboard_ready: true,
                ..self
            },
            crate::runtime::event::EventView::FocusChanged { node } => StatusView {
                focus: Some(node),
                ..self
            },
            crate::runtime::event::EventView::AgentControl { controller, active } => StatusView {
                agent_controlled: active,
                ..self
            },
            crate::runtime::event::EventView::DisplayChanged { screen, monitor_count } => StatusView {
                displays: self.displays.insert(
                    screen.node,
                    RemoteDisplay { size: screen.bounds.size, monitor_count },
                ),
                ..self
            },
            crate::runtime::event::EventView::Error { message } => self.with_error(message),
            crate::runtime::event::EventView::Stopped => StatusView {
                connected: Map::empty(),
                displays: Map::empty(),
                agent_controlled: false,
                native_ready: false,
                clipboard_ready: false,
                phase: if self.last_error is Some {
                    SessionPhase::Failed
                } else {
                    SessionPhase::Stopped
                },
                ..self
            },
            crate::runtime::event::EventView::LocalDesktopChanged { geometry } => self,
            crate::runtime::event::EventView::ClipboardSynchronized { peer, received } => self,
            crate::runtime::event::EventView::ConfigurationApplied => self,
        }
    }
}

impl Default for SessionState {
    fn default() -> (state: SessionState)
        ensures
            state@ == StatusView::idle(),
    {
        SessionState {
            phase: SessionPhase::Stopped,
            role: None,
            connected: NodeMap::new(),
            displays: NodeMap::new(),
            focus: None,
            agent_controlled: false,
            native_ready: false,
            clipboard_ready: false,
            last_error: None,
        }
    }
}

impl SessionState {
    /// Takes note of an event of the session.
    pub fn apply(&mut self, event: RuntimeEvent)
        ensures
            final(self)@ == old(self)@.after(event@),
    {
        match event {
            RuntimeEvent::Starting { role } => {
                *self = SessionState::default();
                self.phase = SessionPhase::Starting;
                self.role = Some(role);
            },
            RuntimeEvent::Listening { .. } => {
                self.phase = SessionPhase::Listening;
            },
            RuntimeEvent::Connecting { .. } => {
                self.phase = SessionPhase::Connecting;
            },
            RuntimeEvent::Connected { peer, session_id } => {
                self.connected.insert(peer, session_id);
                self.phase = SessionPhase::Connected;
                self.last_error = None;
            },
            RuntimeEvent::Disconnected { peer, reason } => {
                self.connected.remove(&peer);
                self.displays.remove(&peer);
                self.agent_controlled = false;
                let mut message = peer.as_str().to_owned();
                message.append(": ");
                message.append(reason.as_str());
                self.last_error = Some(message);
                self.phase = match self.role {
                    Some(RuntimeRole::Controller) => SessionPhase::Listening,
                    Some(RuntimeRole::Agent) => SessionPhase::Connecting,
                    None => SessionPhase::Stopped,
                };
            },
            RuntimeEvent::NativeReady { .. } => {
                self.native_ready = true;
            },
            RuntimeEvent::ClipboardReady { .. } => {
                self.clipboard_ready = true;
            },
            RuntimeEvent::FocusChanged { node } => {
                self.focus = Some(node);
            },
            RuntimeEvent::AgentControl { controller: _, active } => {
                self.agent_controlled = active;
            },
            RuntimeEvent::DisplayChanged { screen, monitor_count } => {
                let display = RemoteDisplay { size: screen.bounds.size, monitor_count };
                self.displays.insert(screen.node, display);
            },
            RuntimeEvent::Error { message } => self.record_error(message),
            RuntimeEvent::Stopped => {
                self.connected = NodeMap::new();
                self.displays = NodeMap::new();
                self.agent_controlled = false;
                self.native_ready = false;
                self.clipboard_ready = false;
                self.phase = if self.last_error.is_some() {
                    SessionPhase::Failed
                } else {
                    SessionPhase::Stopped
                };
            },
            RuntimeEvent::LocalDesktopChanged { .. } => {},
            RuntimeEvent::ClipboardSynchronized { .. } => {},
            RuntimeEvent::ConfigurationApplied => {},
        }
    }

    /// Takes note of an error.
    pub fn record_error(&mut self, message: String)
        ensures
            final(self)@ == old(self)@.with_error(message@),
    {
        self.last_error = Some(message);
        if self.phase == SessionPhase::Stopped {
            self.phase = SessionPhase::Failed;
        }
    }

    /// Forgets the session.
    pub fn stop(&mut self)
        ensures
            final(self)@ == StatusView::idle(),
    {
        *self = SessionState::default();
    }

    pub fn role_label(&self) -> (label: &'static str)
        ensures
            label@ == match self.role {
                Some(RuntimeRole::Controller) => "Controller"@,
                Some(RuntimeRole::Agent) => "Agent"@,
                None => "Not running"@,
            },
    {
        match self.role {
            Some(RuntimeRole::Controller) => "Controller",
            Some(RuntimeRole::Agent) => "Agent",
            None => "Not running",
        }
    }

    pub fn status(&self) -> (status: (&'static str, Tone))
        ensures
            (status.0@, status.1) == phase_label(self.phase),
    {
        match self.phase {
            SessionPhase::Stopped => ("Stopped", Tone::Muted),
            SessionPhase::Starting => ("Starting", Tone::Warning),
            SessionPhase::Listening => ("Listening", Tone::Accent),
            SessionPhase::Connecting => ("Connecting", Tone::Warning),
            SessionPhase::Connected => ("Connected", Tone::Success),
            SessionPhase::Failed => ("Failed", Tone::Danger),
        }
    }

    /// Whether the keyboard and pointer of this node act on a connected one.
    pub fn is_controlling_remote(&self) -> (result: bool)
        ensures
            result == self@.controls_remote(),
    {
        match &self.focus {
            Some(node) => self.connected.get(node).is_some(),
            None => false,
        }
    }

    /// Whether a node is connected and its input can be shared.
    pub fn is_ready(&self) -> (result: bool)
        ensures
            result == (self@.native_ready && self@.connected != Map::<Seq<char>, u128>::empty()),
    {
        self.native_ready && !self.connected.is_empty()
    }
}

/// How a phase is shown.
pub open spec fn phase_label(phase: SessionPhase) -> (Seq<char>, Tone) {
    match phase {
        SessionPhase::Stopped => ("Stopped"@, Tone::Muted),
        SessionPhase::Starting => ("Starting"@, Tone::Warning),
        SessionPhase::Listening => ("Listening"@, Tone::Accent),
        SessionPhase::Connecting => ("Connecting"@, Tone::Warning),
        SessionPhase::Connected => ("Connected"@, Tone::Success),
        SessionPhase::Failed => ("Failed"@, Tone::Danger),
    }
}

/// A node that went away is not controlled and has no desktop any more.
pub proof fn law_departed_nodes_are_not_controlled(
    state: StatusView,
    peer: Seq<char>,
    reason: Seq<char>,
)
    ensures
        ({
            let after = state.after(
                crate::runtime::event::EventView::Disconnected { peer, reason },
            );
            &&& !after.connected.dom().contains(peer)
            &&& !after.displays.dom().contains(peer)
            &&& after.controls_remote() ==> after.focus != Some(peer)
            &&& !after.agent_controlled
        }),
{
}

/// A session that stopped has no connections, and shows as failed exactly if an
/// error is known.
pub proof fn law_stopped_sessions_are_over(state: StatusView)
    ensures
        ({
            let after = state.after(crate::runtime::event::EventView::Stopped);
            &&& after.connected == Map::<Seq<char>, u128>::empty()
            &&& !after.controls_remote()
            &&& (after.phase is Failed <==> state.last_error is Some)
            &&& (after.phase is Failed || after.phase is Stopped)
        }),
{
}

} // verus!
