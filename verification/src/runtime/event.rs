//! What a running session tells, and why it ends.

use vstd::prelude::*;
use vstd::string::*;

use crate::config::{Config, Role};
use crate::domain::arrangement::ScreenPlacement;
use crate::domain::identity::NodeId;
use crate::domain::host::HostPlatform;
use crate::identity::store::TrustStore;
use crate::platform::geometry::DesktopGeometry;
use crate::platform::report::BackendKind;
use crate::protocol::message::Capabilities;
use crate::runtime::activation::ResizeError;
use crate::session::agent::AgentError;
use crate::session::clipboard::ClipboardSessionError;
use crate::session::controller::ControllerError;
use crate::transport::handshake::SessionProfile;

verus! {

#[derive(Clone, Copy, Debug, PartialEq, Eq, Structural)]
pub enum RuntimeRole {
    Controller,
    Agent,
}

/// The role that a configuration runs in.
pub fn runtime_role(role: &Role) -> (result: RuntimeRole)
    ensures
        result == match role@ {
            crate::config::RoleView::Controller { listen, screens, edge_behavior } => {
                RuntimeRole::Controller
            },
            crate::config::RoleView::Agent { controller_node, controller, layout } => {
                RuntimeRole::Agent
            },
        },
{
    match role {
        Role::Controller { .. } => RuntimeRole::Controller,
        Role::Agent { .. } => RuntimeRole::Agent,
    }
}

/// What a running session tells. Addresses are texts of socket addresses.
#[allow(inconsistent_fields)]
#[derive(Debug)]
pub enum RuntimeEvent {
    Starting { role: RuntimeRole },
    Listening { address: String },
    Connecting { peer: NodeId, address: String, attempt: u32 },
    Connected { peer: NodeId, session_id: u128 },
    Disconnected { peer: NodeId, reason: String },
    NativeReady { backend: BackendKind },
    FocusChanged { node: NodeId },
    AgentControl { controller: NodeId, active: bool },
    LocalDesktopChanged { geometry: DesktopGeometry },
    /// A peer reported its desktop, with the number of monitors it spans.
    DisplayChanged { screen: ScreenPlacement, monitor_count: u32 },
    ClipboardReady { backend: BackendKind },
    ClipboardSynchronized { peer: NodeId, received: bool },
    ConfigurationApplied,
    Error { message: String },
    Stopped,
}

#[allow(inconsistent_fields)]
pub ghost enum EventView {
    Starting { role: RuntimeRole },
    Listening { address: Seq<char> },
    Connecting { peer: Seq<char>, address: Seq<char>, attempt: u32 },
    Connected { peer: Seq<char>, session_id: u128 },
    Disconnected { peer: Seq<char>, reason: Seq<char> },
    NativeReady { backend: BackendKind },
    FocusChanged { node: Seq<char> },
    AgentControl { controller: Seq<char>, active: bool },
    LocalDesktopChanged { geometry: DesktopGeometry },
    DisplayChanged { screen: crate::domain::arrangement::PlacementView, monitor_count: u32 },
    ClipboardReady { backend: BackendKind },
    ClipboardSynchronized { peer: Seq<char>, received: bool },
    ConfigurationApplied,
    Error { message: Seq<char> },
    Stopped,
}

impl View for RuntimeEvent {
    type V = EventView;

    open spec fn view(&self) -> EventView {
        match self {
            RuntimeEvent::Starting { role } => EventView::Starting { role: *role },
            RuntimeEvent::Listening { address } => EventView::Listening { address: address@ },
            RuntimeEvent::Connecting { peer, address, attempt } => EventView::Connecting {
                peer: peer@,
                address: address@,
                attempt: *attempt,
            },
            RuntimeEvent::Connected { peer, session_id } => EventView::Connected {
                peer: peer@,
                session_id: *session_id,
            },
            RuntimeEvent::Disconnected { peer, reason } => EventView::Disconnected {
                peer: peer@,
                reason: reason@,
            },
            RuntimeEvent::NativeReady { backend } => EventView::NativeReady { backend: *backend },
            RuntimeEvent::FocusChanged { node } => EventView::FocusChanged { node: node@ },
            RuntimeEvent::AgentControl { controller, active } => EventView::AgentControl {
                controller: controller@,
                active: *active,
            },
            RuntimeEvent::LocalDesktopChanged { geometry } => EventView::LocalDesktopChanged {
                geometry: *geometry,
            },
            RuntimeEvent::DisplayChanged { screen, monitor_count } => EventView::DisplayChanged {
                screen: screen@,
                monitor_count: *monitor_count,
            },
            RuntimeEvent::ClipboardReady { backend } => EventView::ClipboardReady {
                backend: *backend,
            },
            RuntimeEvent::ClipboardSynchronized { peer, received } => {
                EventView::ClipboardSynchronized { peer: peer@, received: *received }
            },
            RuntimeEvent::ConfigurationApplied => EventView::ConfigurationApplied,
            RuntimeEvent::Error { message } => EventView::Error { message: message@ },
            RuntimeEvent::Stopped => EventView::Stopped,
        }
    }
}

/// Why a running session ends by itself.
#[derive(Debug)]
pub enum RuntimeError {
    Transport(String),
    Native(String),
    Controller(ControllerError),
    Agent(AgentError),
    Clipboard(ClipboardSessionError),
    Resize(ResizeError),
    Session(String),
    OutboundQueue(NodeId),
    ReconnectExhausted(NodeId),
}

pub ghost enum RuntimeFault {
    Transport(Seq<char>),
    Native(Seq<char>),
    Controller(crate::session::controller::ErrorView),
    Agent(AgentError),
    Clipboard(crate::session::clipboard::ErrorView),
    Resize(crate::runtime::activation::ResizeFault),
    Session(Seq<char>),
    OutboundQueue(Seq<char>),
    ReconnectExhausted(Seq<char>),
}

impl View for RuntimeError {
    type V = RuntimeFault;

    open spec fn view(&self) -> RuntimeFault {
        match self {
            RuntimeError::Transport(reason) => RuntimeFault::Transport(reason@),
            RuntimeError::Native(reason) => RuntimeFault::Native(reason@),
            RuntimeError::Controller(error) => RuntimeFault::Controller(error@),
            RuntimeError::Agent(error) => RuntimeFault::Agent(*error),
            RuntimeError::Clipboard(error) => RuntimeFault::Clipboard(error@),
            RuntimeError::Resize(error) => RuntimeFault::Resize(error@),
            RuntimeError::Session(reason) => RuntimeFault::Session(reason@),
            RuntimeError::OutboundQueue(node) => RuntimeFault::OutboundQueue(node@),
            RuntimeError::ReconnectExhausted(node) => RuntimeFault::ReconnectExhausted(node@),
        }
    }
}

/// Why a command did not reach the session.
#[derive(Clone, Copy, Debug, PartialEq, Eq, Structural)]
pub struct RuntimeCommandError;

/// Why a session is not started.
#[derive(Debug, PartialEq, Eq)]
pub enum RuntimeStartError {
    UntrustedPeer(NodeId),
    NoRemoteScreens,
    NativeRoleMismatch,
}

pub ghost enum StartFault {
    UntrustedPeer(Seq<char>),
    NoRemoteScreens,
    NativeRoleMismatch,
}

impl View for RuntimeStartError {
    type V = StartFault;

    open spec fn view(&self) -> StartFault {
        match self {
            RuntimeStartError::UntrustedPeer(node) => StartFault::UntrustedPeer(node@),
            RuntimeStartError::NoRemoteScreens => StartFault::NoRemoteScreens,
            RuntimeStartError::NativeRoleMismatch => StartFault::NativeRoleMismatch,
        }
    }
}

/// The first desktop from `from` on that belongs to an untrusted other node.
pub open spec fn first_untrusted(
    screens: Seq<crate::domain::arrangement::PlacementView>,
    node: Seq<char>,
    trusted: Seq<crate::identity::store::PeerView>,
    from: int,
) -> Option<Seq<char>>
    decreases screens.len() - from,
{
    if from < 0 || from >= screens.len() {
        None
    } else if screens[from].node != node && !crate::identity::store::knows_node(
        trusted,
        screens[from].node,
    ) {
        Some(screens[from].node)
    } else {
        first_untrusted(screens, node, trusted, from + 1)
    }
}

/// Why a configuration cannot be run with these trusted peers.
pub open spec fn trust_fault(
    config: crate::config::ConfigView,
    trusted: Seq<crate::identity::store::PeerView>,
) -> Option<StartFault> {
    match config.role {
        crate::config::RoleView::Controller { listen, screens, edge_behavior } => {
            match first_untrusted(screens, config.node, trusted, 0) {
                Some(node) => Some(StartFault::UntrustedPeer(node)),
                None => if exists|i: int|
                    0 <= i < screens.len() && (#[trigger] screens[i]).node != config.node {
                    None
                } else {
                    Some(StartFault::NoRemoteScreens)
                },
            }
        },
        crate::config::RoleView::Agent { controller_node, controller, layout } => {
            if crate::identity::store::knows_node(trusted, controller_node) {
                None
            } else {
                Some(StartFault::UntrustedPeer(controller_node))
            }
        },
    }
}

/// Checks that every other node of a configuration is trusted.
pub fn validate_trust(config: &Config, trust: &TrustStore) -> (result: Result<
    (),
    RuntimeStartError,
>)
    ensures
        match result {
            Ok(()) => trust_fault(config@, trust@) is None,
            Err(error) => trust_fault(config@, trust@) == Some(error@),
        },
{
    match &config.role {
        Role::Controller { listen: _, topology, edge_behavior: _ } => {
            let screens = topology.screens();
            let ghost views = topology@;
            let mut has_peer = false;
            let mut index: usize = 0;
            while index < screens.len()
                invariant
                    index <= screens@.len(),
                    views == topology@,
                    crate::domain::arrangement::placement_views(screens@) == views,
                    config@.role matches crate::config::RoleView::Controller {
                        listen: _,
                        screens: configured,
                        edge_behavior: _,
                    } && configured == views,
                    has_peer == exists|i: int|
                        0 <= i < index && (#[trigger] views[i]).node != config@.node,
                    first_untrusted(views, config@.node, trust@, 0) == first_untrusted(
                        views,
                        config@.node,
                        trust@,
                        index as int,
                    ),
                decreases screens@.len() - index,
            {
                let screen = &screens[index];
                assert(views[index as int] == screen@);
                if screen.node != config.node {
                    has_peer = true;
                    if trust.get(&screen.node).is_none() {
                        return Err(RuntimeStartError::UntrustedPeer(screen.node.clone()));
                    }
                }
                proof {
                    if has_peer && screen.node@ == config@.node {
                        let i = choose|i: int|
                            0 <= i < index && (#[trigger] views[i]).node != config@.node;
                        assert(0 <= i < index + 1);
                    }
                }
                index += 1;
            }
            if !has_peer {
                return Err(RuntimeStartError::NoRemoteScreens);
            }
        },
        Role::Agent { controller_node, controller: _, display_layout: _ } => {
            if trust.get(controller_node).is_none() {
                return Err(RuntimeStartError::UntrustedPeer(controller_node.clone()));
            }
        },
    }
    Ok(())
}

/// Checks that a session can be started with the native service of `native`.
pub fn validate_start(config: &Config, trust: &TrustStore, native: RuntimeRole) -> (result: Result<
    (),
    RuntimeStartError,
>)
    ensures
        match result {
            Ok(()) => trust_fault(config@, trust@) is None && (native is Controller) == (
            config@.role is Controller),
            Err(error) => match trust_fault(config@, trust@) {
                Some(fault) => error@ == fault,
                None => error@ == StartFault::NativeRoleMismatch && (native is Controller) != (
                config@.role is Controller),
            },
        },
{
    if let Err(error) = validate_trust(config, trust) {
        return Err(error);
    }
    if native != runtime_role(&config.role) {
        return Err(RuntimeStartError::NativeRoleMismatch);
    }
    Ok(())
}

/// Whether a native service that ended is started again. Capture is not: it
/// would ask for a permission again that may have been denied.
pub fn should_restart_after_close(role: RuntimeRole, has_been_ready: bool) -> (result: bool)
    ensures
        result == (role == RuntimeRole::Agent && has_been_ready),
{
    match role {
        RuntimeRole::Controller => false,
        RuntimeRole::Agent => has_been_ready,
    }
}

/// What a session offers on this platform.
pub fn session_profile(platform: HostPlatform, clipboard_text: bool) -> (profile: SessionProfile)
    ensures
        profile == (SessionProfile {
            platform,
            capabilities: Capabilities {
                keyboard: true,
                relative_pointer: true,
                absolute_pointer: false,
                clipboard_text,
            },
        }),
{
    SessionProfile {
        platform,
        capabilities: Capabilities {
            keyboard: true,
            relative_pointer: true,
            absolute_pointer: false,
            clipboard_text,
        },
    }
}

/// An operation and why it failed.
pub open spec fn failure_text(operation: Seq<char>, reason: Seq<char>) -> Seq<char> {
    operation + ": "@ + reason
}

pub fn native_failure(operation: &str, reason: &str) -> (text: String)
    ensures
        text@ == failure_text(operation@, reason@),
{
    let mut text = operation.to_owned();
    text.append(": ");
    text.append(reason);
    assert(text@ =~= failure_text(operation@, reason@));
    text
}

/// A text around the name of a node.
pub(crate) fn node_text(before: &str, node: &NodeId, after: &str) -> (text: String)
    ensures
        text@ == before@ + node@ + after@,
{
    let mut text = before.to_owned();
    text.append(node.as_str());
    text.append(after);
    assert(text@ =~= before@ + node@ + after@);
    text
}

impl RuntimeError {
    /// The error in words.
    pub open spec fn text(self) -> Seq<char> {
        match self {
            RuntimeError::Transport(reason) => "transport failed: "@ + reason@,
            RuntimeError::Native(reason) => "native input failed: "@ + reason@,
            RuntimeError::Controller(error) => "session failed: "@ + error.text(),
            RuntimeError::Agent(error) => "session failed: "@ + error.text(),
            RuntimeError::Clipboard(error) => "session failed: "@ + error.text(),
            RuntimeError::Resize(error) => "session failed: "@ + error.text(),
            RuntimeError::Session(reason) => "session failed: "@ + reason@,
            RuntimeError::OutboundQueue(node) => {
                "outbound queue for `"@ + node@ + "` is unavailable"@
            },
            RuntimeError::ReconnectExhausted(node) => {
                "reconnect attempts to `"@ + node@ + "` were exhausted"@
            },
        }
    }

    /// The error in words.
    pub fn message(&self) -> (message: String)
        ensures
            message@ == self.text(),
    {
        let mut message = String::new();
        match self {
            RuntimeError::Transport(reason) => {
                message.append("transport failed: ");
                message.append(reason.as_str());
            },
            RuntimeError::Native(reason) => {
                message.append("native input failed: ");
                message.append(reason.as_str());
            },
            RuntimeError::Controller(error) => {
                message.append("session failed: ");
                message.append(error.message().as_str());
            },
            RuntimeError::Agent(error) => {
                message.append("session failed: ");
                message.append(error.message().as_str());
            },
            RuntimeError::Clipboard(error) => {
                message.append("session failed: ");
                message.append(error.message().as_str());
            },
            RuntimeError::Resize(error) => {
                message.append("session failed: ");
                message.append(error.message().as_str());
            },
            RuntimeError::Session(reason) => {
                message.append("session failed: ");
                message.append(reason.as_str());
            },
            RuntimeError::OutboundQueue(node) => {
                message.append("outbound queue for `");
                message.append(node.as_str());
                message.append("` is unavailable");
            },
            RuntimeError::ReconnectExhausted(node) => {
                message.append("reconnect attempts to `");
                message.append(node.as_str());
                message.append("` were exhausted");
            },
        }
        assert(message@ =~= self.text());
        message
    }
}

impl RuntimeStartError {
    /// The error in words.
    pub open spec fn text(self) -> Seq<char> {
        match self {
            RuntimeStartError::UntrustedPeer(node) => {
                "trusted node `"@ + node@ + "` must be paired before starting the session"@
            },
            RuntimeStartError::NoRemoteScreens => {
                "controller topology must contain at least one remote screen"@
            },
            RuntimeStartError::NativeRoleMismatch => {
                "prepared native input role does not match the configuration"@
            },
        }
    }

    /// The error in words.
    pub fn message(&self) -> (message: String)
        ensures
            message@ == self.text(),
    {
        let mut message = String::new();
        match self {
            RuntimeStartError::UntrustedPeer(node) => {
                message.append("trusted node `");
                message.append(node.as_str());
                message.append("` must be paired before starting the session");
            },
            RuntimeStartError::NoRemoteScreens => {
                message.append("controller topology must contain at least one remote screen");
            },
            RuntimeStartError::NativeRoleMismatch => {
                message.append("prepared native input role does not match the configuration");
            },
        }
        assert(message@ =~= self.text());
        message
    }
}

} // verus!
