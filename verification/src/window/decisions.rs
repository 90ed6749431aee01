//! What the window does next.

use vstd::prelude::*;
use vstd::string::*;

use crate::config::{Config, Role};
use crate::discovery::address::IpAddress;
use crate::domain::identity::NodeId;
use crate::editor::config_editor::{ConfigEditor, ConfigRole, DEFAULT_CONTROLLER_NODE};
use crate::identity::store::TrustStore;
use crate::runtime::event::RuntimeRole;
use crate::text::{same_text, trim};
use crate::window::status::{SessionPhase, SessionState};

verus! {

/// Both configurations are those of one controller at one address.
pub open spec fn is_same_controller(
    previous: crate::config::ConfigView,
    config: crate::config::ConfigView,
) -> bool {
    &&& previous.node == config.node
    &&& match (previous.role, config.role) {
        (
            crate::config::RoleView::Controller { listen: before, screens: _, edge_behavior: _ },
            crate::config::RoleView::Controller { listen, screens: _, edge_behavior: _ },
        ) => before == listen,
        _ => false,
    }
}

/// Whether a saved configuration can be handed to the running session, which
/// goes on with its connections.
pub fn can_apply_live(
    running: bool,
    role: Option<RuntimeRole>,
    previous: Option<&Config>,
    config: &Config,
) -> (result: bool)
    ensures
        result == (running && role == Some(RuntimeRole::Controller) && match previous {
            Some(previous) => is_same_controller(previous@, config@),
            None => false,
        }),
{
    if !running {
        return false;
    }
    match role {
        Some(RuntimeRole::Controller) => {},
        _ => {
            return false;
        },
    }
    match previous {
        Some(previous) => previous.node == config.node && match (&previous.role, &config.role) {
            (Role::Controller { listen: before, .. }, Role::Controller { listen, .. }) => {
                same_text(before.as_str(), listen.as_str())
            },
            _ => false,
        },
        None => false,
    }
}

/// What is wrong with a configuration that is not the one of this node.
pub fn ownership_error(config: &Config, local_node: &NodeId) -> (error: Option<String>)
    ensures
        match error {
            Some(error) => config@.node != local_node@ && error@ == "Configuration belongs to `"@
                + config@.node + "`, not `"@ + local_node@ + "`"@,
            None => config@.node == local_node@,
        },
{
    if config.node == *local_node {
        return None;
    }
    let mut error = "Configuration belongs to `".to_owned();
    error.append(config.node.as_str());
    error.append("`, not `");
    error.append(local_node.as_str());
    error.append("`");
    Some(error)
}

/// Whether a running native input service is used for a session in this role.
pub fn keeps_native_input(
    running: Option<RuntimeRole>,
    finished: bool,
    wanted: RuntimeRole,
) -> (result: bool)
    ensures
        result == (running == Some(wanted) && !finished),
{
    match running {
        Some(role) => role == wanted && !finished,
        None => false,
    }
}

/// Whether a closed native input service is started again: not during a session,
/// not where its end was meant, and not before it is time.
pub fn restarts_native_input(
    session_running: bool,
    finished: bool,
    restartable: bool,
    waiting: bool,
) -> (result: bool)
    ensures
        result == (!session_running && finished && restartable && !waiting),
{
    !session_running && finished && restartable && !waiting
}

/// Whether the window is hidden when it is asked to close.
pub fn hides_on_close(leaving: bool, keep_running: bool, has_tray: bool) -> (result: bool)
    ensures
        result == (!leaving && keep_running && has_tray),
{
    !leaving && keep_running && has_tray
}

/// Whether the session is started again after a node was paired.
pub fn restarts_after_pairing(session_running: bool, state: &SessionState) -> (result: bool)
    ensures
        result == (session_running || state@.phase is Failed),
{
    session_running || state.phase == SessionPhase::Failed
}

/// Whether there is something to pair with.
pub fn can_try_pairing(bundle: &str, code: &str) -> (result: bool)
    ensures
        result == (crate::text::trimmed(bundle@).len() > 0 && crate::text::trimmed(code@).len()
            > 0),
{
    !is_blank_field(bundle) && !is_blank_field(code)
}

fn is_blank_field(text: &str) -> (result: bool)
    ensures
        result == (crate::text::trimmed(text@).len() == 0),
{
    let inner = trim(text);
    proof {
        if inner@.len() == 0 {
            assert(inner@ =~= ""@) by {
                reveal_strlit("");
            }
        } else {
            reveal_strlit("");
        }
    }
    same_text(inner, "")
}

/// The first trusted node that is not placed yet.
pub open spec fn unplaced_node(
    peers: Seq<Seq<char>>,
    screens: Seq<crate::editor::screen::ScreenEditorView>,
    from: int,
) -> Seq<char>
    decreases peers.len() - from,
{
    if from < 0 || from >= peers.len() {
        DEFAULT_CONTROLLER_NODE@
    } else if crate::editor::machines::first_named(screens, peers[from], 0) is None {
        peers[from]
    } else {
        unplaced_node(peers, screens, from + 1)
    }
}

/// The nodes of trusted peers.
pub open spec fn peer_nodes(peers: Seq<crate::identity::store::PeerView>) -> Seq<Seq<char>> {
    peers.map_values(|peer: crate::identity::store::PeerView| peer.node)
}

/// The node that a new machine is probably meant for.
pub fn suggested_node(trust: &TrustStore, editor: &ConfigEditor) -> (node: String)
    ensures
        node@ == unplaced_node(peer_nodes(trust@), editor@.screens, 0),
{
    let peers = trust.peers();
    let ghost nodes = peer_nodes(trust@);
    let mut index: usize = 0;
    while index < peers.len()
        invariant
            index <= peers@.len(),
            crate::identity::store::peer_views(peers@) == trust@,
            nodes == peer_nodes(trust@),
            unplaced_node(nodes, editor@.screens, 0) == unplaced_node(
                nodes,
                editor@.screens,
                index as int,
            ),
        decreases peers@.len() - index,
    {
        let node = peers[index].node();
        assert(trust@[index as int] == peers@[index as int]@);
        assert(nodes[index as int] == node@);
        if !editor.contains_node(node) {
            return node.as_str().to_owned();
        }
        index += 1;
    }
    DEFAULT_CONTROLLER_NODE.to_owned()
}

/// Takes the one trusted node as the controller, unless another was chosen.
pub fn choose_controller(editor: &mut ConfigEditor, trust: &TrustStore)
    ensures
        final(editor)@ == (crate::editor::config_editor::EditorView {
            controller_node: if old(editor)@.controller_node == DEFAULT_CONTROLLER_NODE@
                && trust@.len() == 1 {
                trust@[0].node
            } else {
                old(editor)@.controller_node
            },
            ..old(editor)@
        }),
{
    let peers = trust.peers();
    assert(peers@.len() == trust@.len());
    if peers.len() == 1 && same_text(editor.controller_node.as_str(), DEFAULT_CONTROLLER_NODE) {
        assert(trust@[0] == peers@[0]@);
        editor.controller_node = peers[0].node().as_str().to_owned();
    }
}

/// Takes a node that was just paired as the controller of an agent that has
/// none. Returns whether it did.
pub fn adopt_controller(editor: &mut ConfigEditor, node: &NodeId) -> (adopted: bool)
    ensures
        adopted == (old(editor)@.role is Agent && old(editor)@.controller_node
            == DEFAULT_CONTROLLER_NODE@),
        final(editor)@ == (crate::editor::config_editor::EditorView {
            controller_node: if adopted {
                node@
            } else {
                old(editor)@.controller_node
            },
            ..old(editor)@
        }),
{
    if editor.role == ConfigRole::Agent && same_text(
        editor.controller_node.as_str(),
        DEFAULT_CONTROLLER_NODE,
    ) {
        editor.controller_node = node.as_str().to_owned();
        true
    } else {
        false
    }
}

/// The first IPv4 address, from `from` on.
pub open spec fn first_v4(addresses: Seq<IpAddress>, from: int) -> Option<IpAddress>
    decreases addresses.len() - from,
{
    if from < 0 || from >= addresses.len() {
        None
    } else if addresses[from] is V4 {
        Some(addresses[from])
    } else {
        first_v4(addresses, from + 1)
    }
}

/// The address at which a discovered controller is reached: its first IPv4
/// address, or else its first, at the port that it announces.
pub fn discovered_controller_address(addresses: &[IpAddress], port: u16) -> (address: Option<
    (IpAddress, u16),
>)
    ensures
        address == if port == 0 || addresses@.len() == 0 {
            None
        } else {
            match first_v4(addresses@, 0) {
                Some(address) => Some((address, port)),
                None => Some((addresses@[0], port)),
            }
        },
{
    if port == 0 || addresses.len() == 0 {
        return None;
    }
    let mut index: usize = 0;
    while index < addresses.len()
        invariant
            index <= addresses@.len(),
            port != 0,
            addresses@.len() > 0,
            first_v4(addresses@, 0) == first_v4(addresses@, index as int),
        decreases addresses@.len() - index,
    {
        if let IpAddress::V4(_) = addresses[index] {
            return Some((addresses[index], port));
        }
        index += 1;
    }
    Some((addresses[0], port))
}

/// Whether the window may offer to remove the selected machine: it can go, and
/// it is not the one of this node.
pub fn may_remove_selected(editor: &ConfigEditor, local_node: Option<&NodeId>) -> (result: bool)
    ensures
        result == (crate::editor::machines::can_remove(
            editor@.screens,
            editor@.selected_screen as int,
        ) && match local_node {
            Some(node) => !editor@.screens[editor@.selected_screen as int].names(node@),
            None => true,
        }),
{
    if !editor.can_remove_screen(editor.selected_screen) {
        return false;
    }
    match local_node {
        Some(node) => {
            assert(editor.selected_screen < editor@.screens.len());
            assert(editor@.screens[editor.selected_screen as int]
                == editor.screens@[editor.selected_screen as int]@);
            !editor.screens[editor.selected_screen].is_of(node)
        },
        None => true,
    }
}

/// How long the window rests, in milliseconds.
pub fn repaint_interval_millis(session_running: bool, showing_logs: bool) -> (millis: u64)
    ensures
        millis == if session_running {
            50u64
        } else if showing_logs {
            500u64
        } else {
            1000u64
        },
{
    if session_running {
        50
    } else if showing_logs {
        500
    } else {
        1000
    }
}

} // verus!
