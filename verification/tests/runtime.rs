use tevir::config::{Config, EdgeBehavior, EdgePosition, Role, EDGE_UNITS};
use tevir::domain::arrangement::{ScreenPlacement, Topology};
use tevir::domain::display::DesktopLayout;
use tevir::domain::geometry::{Point, Rect, Size};
use tevir::domain::host::HostPlatform;
use tevir::domain::identity::NodeId;
use tevir::domain::input::{InputEvent, InputKind, KeyAction, PhysicalKey};
use tevir::domain::nonzero::{NonZeroU32, NonZeroU64};
use tevir::domain::topology::Edge;
use tevir::identity::pairing::PairingBundle;
use tevir::identity::store::TrustStore;
use tevir::platform::clipboard::ClipboardServiceEvent;
use tevir::platform::geometry::DesktopGeometry;
use tevir::platform::report::BackendKind;
use tevir::platform::service::{CaptureServiceEvent, InjectionServiceEvent};
use tevir::protocol::clipboard::{ClipboardControl, ClipboardGeneration, ClipboardText};
use tevir::protocol::message::{Capabilities, InputBatch, Session};
use tevir::runtime::activation::{
    activation_target, capture_edges, resize_topology_screen, EmergencyShortcut, ResizeError,
};
use tevir::runtime::agent::{AgentConnection, AgentEffect, Reconnects};
use tevir::runtime::controller::ControllerRuntime;
use tevir::runtime::effect::Effect;
use tevir::runtime::event::{
    native_failure, runtime_role, session_profile, should_restart_after_close, validate_start,
    RuntimeError, RuntimeEvent, RuntimeRole, RuntimeStartError,
};
use tevir::runtime::native::injection_event_before_connection;
use tevir::time::Duration;
use tevir::transport::config::ReconnectPolicy;
use tevir::transport::handshake::ConnectionInfo;

fn key_event(usage_id: u16, action: KeyAction) -> InputEvent {
    InputEvent {
        elapsed_micros: 0,
        kind: InputKind::Key {
            key: PhysicalKey::new(0x07, usage_id),
            action,
        },
    }
}

fn node(value: &str) -> NodeId {
    NodeId::new(value).unwrap_or_else(|error| panic!("invalid test node: {error:?}"))
}

fn size(width: u32, height: u32) -> Size {
    Size::new(
        NonZeroU32::new(width).unwrap_or(NonZeroU32::min_value()),
        NonZeroU32::new(height).unwrap_or(NonZeroU32::min_value()),
    )
}

fn screen(node_id: &str, x: i32, y: i32, width: u32, height: u32) -> ScreenPlacement {
    ScreenPlacement::single(
        node(node_id),
        Rect::new(Point { x, y }, size(width, height)),
    )
}

fn topology(screens: Vec<ScreenPlacement>) -> Topology {
    Topology::new(screens).unwrap_or_else(|error| panic!("topology should be valid: {error:?}"))
}

fn position(fraction: f64) -> EdgePosition {
    EdgePosition::from_units((fraction.clamp(0.0, 1.0) * EDGE_UNITS as f64).round() as u64)
}

#[test]
fn capture_edges_and_offsets_follow_the_local_topology() {
    let topology = topology(vec![
        screen("local", 0, 180, 1920, 1080),
        screen("right", 1920, 0, 2560, 1440),
    ]);

    assert_eq!(
        capture_edges(&topology, &node("local"), EdgeBehavior::default()),
        vec![Edge::Right]
    );
    assert_eq!(
        activation_target(&topology, &node("local"), Edge::Right, None),
        Some((node("right"), 539))
    );
    assert_eq!(
        activation_target(&topology, &node("local"), Edge::Right, Some(position(0.05))),
        Some((node("right"), 54))
    );
}

#[test]
fn capture_edges_include_partial_overlap_away_from_the_midpoint() {
    let topology = topology(vec![
        screen("local", 0, 0, 1920, 1080),
        screen("right", 1920, -900, 2560, 1080),
    ]);

    assert_eq!(
        capture_edges(&topology, &node("local"), EdgeBehavior::default()),
        vec![Edge::Right]
    );
    assert_eq!(
        activation_target(&topology, &node("local"), Edge::Right, None),
        Some((node("right"), 89))
    );
}

#[test]
fn disabled_edges_do_not_install_capture_barriers() {
    let topology = topology(vec![
        screen("local", 0, 0, 1920, 1080),
        screen("right", 1920, 0, 1920, 1080),
    ]);
    let mut behavior = EdgeBehavior::default();
    behavior.right.enabled = false;

    assert!(capture_edges(&topology, &node("local"), behavior).is_empty());
}

#[test]
fn emergency_shortcut_requires_control_alt_and_escape() {
    let mut shortcut = EmergencyShortcut::default();

    assert!(!shortcut.observe(key_event(0xe0, KeyAction::Press)));
    assert!(!shortcut.observe(key_event(0xe2, KeyAction::Press)));
    assert!(shortcut.observe(key_event(0x29, KeyAction::Press)));

    assert!(!shortcut.observe(key_event(0xe2, KeyAction::Release)));
    assert!(!shortcut.observe(key_event(0x29, KeyAction::Press)));
}

#[test]
fn reported_display_size_preserves_a_right_hand_attachment() {
    let topology = topology(vec![
        screen("local", 0, 0, 1920, 1080),
        screen("right", 1920, 0, 1920, 1080),
    ]);

    let updated = resize_topology_screen(
        &topology,
        &node("right"),
        &DesktopLayout::single(size(2560, 1440)),
    )
    .unwrap_or_else(|error| panic!("display update should be valid: {error:?}"));

    assert_eq!(
        updated.screen(&node("right")),
        Some(&screen("right", 1920, -180, 2560, 1440))
    );
}

#[test]
fn reported_display_size_preserves_a_left_hand_attachment() {
    let topology = topology(vec![
        screen("left", 0, 0, 1920, 1080),
        screen("local", 1920, 0, 1920, 1080),
    ]);

    let updated = resize_topology_screen(
        &topology,
        &node("left"),
        &DesktopLayout::single(size(2560, 1440)),
    )
    .unwrap_or_else(|error| panic!("display update should be valid: {error:?}"));

    assert_eq!(
        updated.screen(&node("left")),
        Some(&screen("left", -640, -180, 2560, 1440))
    );
}

#[test]
fn unknown_displays_are_not_resized() {
    let topology = topology(vec![screen("local", 0, 0, 1920, 1080)]);
    assert!(matches!(
        resize_topology_screen(
            &topology,
            &node("stranger"),
            &DesktopLayout::single(size(10, 10))
        ),
        Err(ResizeError::UnknownNode(unknown)) if unknown == node("stranger")
    ));
}

fn info(peer: &str, session_id: u128, clipboard_text: bool) -> ConnectionInfo {
    ConnectionInfo {
        peer: node(peer),
        session_id,
        negotiated_capabilities: Capabilities {
            keyboard: true,
            relative_pointer: true,
            absolute_pointer: false,
            clipboard_text,
        },
        peer_platform: HostPlatform::LinuxWayland,
    }
}

fn controller(clipboard: bool) -> ControllerRuntime {
    ControllerRuntime::new(
        node("left"),
        topology(vec![
            screen("left", 0, 0, 1920, 1080),
            screen("right", 1920, 0, 1920, 1080),
        ]),
        EdgeBehavior::default(),
        clipboard,
    )
    .unwrap_or_else(|error| panic!("controller failed: {error:?}"))
}

fn connected(clipboard: bool) -> ControllerRuntime {
    let mut runtime = controller(clipboard);
    let effects = runtime
        .peer_connected(info("right", 7, clipboard))
        .unwrap_or_else(|error| panic!("connection failed: {error:?}"));
    assert!(effects.iter().any(|effect| matches!(
        effect,
        Effect::Keep { peer, session_id: 7, .. } if peer == &node("right")
    )));
    assert!(effects.iter().any(|effect| matches!(
        effect,
        Effect::Tell(RuntimeEvent::Connected { session_id: 7, .. })
    )));
    runtime
}

#[test]
fn crossing_an_edge_focuses_the_connected_neighbor() {
    let mut runtime = connected(false);
    assert_eq!(runtime.captured_edges(), vec![Edge::Right]);
    let effects = runtime
        .edge_crossed(Edge::Right, Some(EdgePosition::middle()), 0)
        .unwrap_or_else(|error| panic!("crossing failed: {error:?}"));
    assert_eq!(runtime.focus(), &node("right"));
    assert!(effects.iter().any(|effect| matches!(
        effect,
        Effect::Send { peer, message: Session::FocusChanged { target, .. } }
            if peer == &node("right") && target == &node("right")
    )));
    assert!(effects.iter().any(|effect| matches!(
        effect,
        Effect::Tell(RuntimeEvent::FocusChanged { node: focused }) if focused == &node("right")
    )));
}

#[test]
fn crossing_to_an_absent_neighbor_lets_the_capture_go() {
    let mut runtime = controller(false);
    let effects = runtime
        .edge_crossed(Edge::Right, Some(EdgePosition::middle()), 0)
        .unwrap_or_else(|error| panic!("crossing failed: {error:?}"));
    assert_eq!(runtime.focus(), &node("left"));
    assert!(effects
        .iter()
        .any(|effect| matches!(effect, Effect::ReleaseCapture)));
}

#[test]
fn input_reaches_the_focused_agent_and_the_shortcut_returns_it() {
    let mut runtime = connected(false);
    runtime
        .edge_crossed(Edge::Right, Some(EdgePosition::middle()), 0)
        .unwrap_or_else(|error| panic!("crossing failed: {error:?}"));
    runtime
        .input_captured(key_event(0x04, KeyAction::Press))
        .unwrap_or_else(|error| panic!("input failed: {error:?}"));
    let effects = runtime
        .tick(1)
        .unwrap_or_else(|error| panic!("tick failed: {error:?}"));
    assert!(effects.iter().any(|effect| matches!(
        effect,
        Effect::Send { message: Session::Input(batch), .. } if batch.events.len() == 1
    )));
    for usage in [0xe0, 0xe2] {
        runtime
            .input_captured(key_event(usage, KeyAction::Press))
            .unwrap_or_else(|error| panic!("input failed: {error:?}"));
    }
    let effects = runtime
        .input_captured(key_event(0x29, KeyAction::Press))
        .unwrap_or_else(|error| panic!("input failed: {error:?}"));
    assert_eq!(runtime.focus(), &node("left"));
    assert!(effects
        .iter()
        .any(|effect| matches!(effect, Effect::ReleaseCapture)));
}

#[test]
fn a_delayed_edge_waits_for_its_time() {
    let mut behavior = EdgeBehavior::default();
    behavior.switch_delay_ms = 100;
    let mut runtime = ControllerRuntime::new(
        node("left"),
        topology(vec![
            screen("left", 0, 0, 1920, 1080),
            screen("right", 1920, 0, 1920, 1080),
        ]),
        behavior,
        false,
    )
    .unwrap_or_else(|error| panic!("controller failed: {error:?}"));
    runtime
        .peer_connected(info("right", 7, false))
        .unwrap_or_else(|error| panic!("connection failed: {error:?}"));
    runtime
        .edge_crossed(Edge::Right, Some(EdgePosition::middle()), 1_000)
        .unwrap_or_else(|error| panic!("crossing failed: {error:?}"));
    assert_eq!(runtime.focus(), &node("left"));
    runtime
        .tick(1_050)
        .unwrap_or_else(|error| panic!("tick failed: {error:?}"));
    assert_eq!(runtime.focus(), &node("left"));
    runtime
        .tick(1_100)
        .unwrap_or_else(|error| panic!("tick failed: {error:?}"));
    assert_eq!(runtime.focus(), &node("right"));
}

#[test]
fn a_departed_peer_loses_the_focus() {
    let mut runtime = connected(false);
    runtime
        .edge_crossed(Edge::Right, Some(EdgePosition::middle()), 0)
        .unwrap_or_else(|error| panic!("crossing failed: {error:?}"));
    let stale = runtime
        .peer_disconnected(&node("right"), 6, String::from("old"))
        .unwrap_or_else(|error| panic!("disconnection failed: {error:?}"));
    assert!(stale.is_empty());
    assert_eq!(runtime.focus(), &node("right"));
    let effects = runtime
        .peer_disconnected(&node("right"), 7, String::from("gone"))
        .unwrap_or_else(|error| panic!("disconnection failed: {error:?}"));
    assert_eq!(runtime.focus(), &node("left"));
    assert!(effects.iter().any(|effect| matches!(
        effect,
        Effect::Tell(RuntimeEvent::Disconnected { reason, .. }) if reason == "gone"
    )));
    assert!(runtime.heartbeat().is_empty());
}

#[test]
fn strangers_are_declined() {
    let mut runtime = controller(false);
    let effects = runtime
        .peer_connected(info("stranger", 1, false))
        .unwrap_or_else(|error| panic!("connection failed: {error:?}"));
    assert!(effects
        .iter()
        .any(|effect| matches!(effect, Effect::Decline)));
    assert!(!effects
        .iter()
        .any(|effect| matches!(effect, Effect::Keep { .. })));
}

#[test]
fn reported_displays_change_the_topology() {
    let mut runtime = connected(false);
    let effects = runtime
        .message_received(
            &node("right"),
            7,
            Session::DisplayChanged {
                size: size(2560, 1440),
                monitor_count: NonZeroU32::new(3).unwrap_or(NonZeroU32::min_value()),
            },
        )
        .unwrap_or_else(|error| panic!("message failed: {error:?}"));
    assert!(effects.iter().any(|effect| matches!(
        effect,
        Effect::Tell(RuntimeEvent::DisplayChanged { screen: shown, monitor_count: 3 })
            if shown == &screen("right", 1920, -180, 2560, 1440)
    )));
    let ignored = runtime
        .message_received(&node("right"), 6, Session::Heartbeat { nonce: 1 })
        .unwrap_or_else(|error| panic!("message failed: {error:?}"));
    assert!(ignored.is_empty());
    let answered = runtime
        .message_received(&node("right"), 7, Session::Heartbeat { nonce: 1 })
        .unwrap_or_else(|error| panic!("message failed: {error:?}"));
    assert!(matches!(
        answered.as_slice(),
        [Effect::Offer {
            message: Session::HeartbeatAcknowledged { nonce: 1 },
            ..
        }]
    ));
}

#[test]
fn clipboard_texts_travel_through_the_controller() {
    let mut runtime = connected(true);
    let effects = runtime
        .clipboard_event(ClipboardServiceEvent::Changed {
            text: String::from("hello"),
        })
        .unwrap_or_else(|error| panic!("change failed: {error:?}"));
    assert!(matches!(
        effects.as_slice(),
        [
            Effect::Send {
                message: Session::Clipboard(ClipboardControl::Offered(_)),
                ..
            },
            Effect::Transfer { .. }
        ]
    ));
    let remote = ClipboardText::new(
        ClipboardGeneration::new(node("right"), NonZeroU64::min_value()),
        String::from("remote"),
    )
    .unwrap_or_else(|error| panic!("transfer failed: {error:?}"));
    runtime
        .message_received(
            &node("right"),
            7,
            Session::Clipboard(ClipboardControl::Offered(remote.offer())),
        )
        .unwrap_or_else(|error| panic!("offer failed: {error:?}"));
    let effects = runtime
        .transfer_received(&node("right"), 7, remote)
        .unwrap_or_else(|error| panic!("transfer failed: {error:?}"));
    assert!(effects.iter().any(|effect| matches!(
        effect,
        Effect::ApplyClipboard { text } if text == "remote"
    )));
    let effects = runtime
        .clipboard_event(ClipboardServiceEvent::Applied)
        .unwrap_or_else(|error| panic!("confirmation failed: {error:?}"));
    assert!(effects.iter().any(|effect| matches!(
        effect,
        Effect::Tell(RuntimeEvent::ClipboardSynchronized { received: true, .. })
    )));
    assert!(matches!(
        runtime.clipboard_event(ClipboardServiceEvent::Applied),
        Err(RuntimeError::Session(_))
    ));
}

fn geometry(width: u32, height: u32) -> DesktopGeometry {
    DesktopGeometry {
        origin: Point { x: 0, y: 0 },
        size: size(width, height),
        monitor_count: 2,
    }
}

fn agent(clipboard: bool) -> AgentConnection {
    AgentConnection::new(
        node("right"),
        node("left"),
        7,
        3,
        geometry(1920, 1080),
        clipboard,
        clipboard,
    )
}

fn focus(epoch: u64, target: &str) -> Session {
    Session::FocusChanged {
        focus_epoch: epoch,
        target: node(target),
        entry_position: Point { x: 1, y: 2 },
    }
}

fn batch(epoch: u64, sequence: u64) -> Session {
    Session::Input(InputBatch {
        focus_epoch: epoch,
        sequence,
        events: vec![key_event(0x04, KeyAction::Press)],
    })
}

#[test]
fn agents_report_their_desktop_first() {
    let effects = agent(false).opening();
    assert!(matches!(
        effects.as_slice(),
        [
            AgentEffect::Send(Session::DisplayChanged { size: shown, monitor_count }),
            AgentEffect::Tell(RuntimeEvent::LocalDesktopChanged { .. }),
        ] if shown == &size(1920, 1080) && monitor_count.get() == 2
    ));
}

#[test]
fn agents_wait_while_input_is_injected() {
    let mut agent = agent(false);
    let effects = agent
        .message_received(focus(2, "right"))
        .unwrap_or_else(|error| panic!("focus failed: {error:?}"));
    assert!(matches!(
        effects.as_slice(),
        [
            AgentEffect::WarpCursor(Point { x: 1, y: 2 }),
            AgentEffect::Tell(RuntimeEvent::AgentControl { active: true, .. }),
        ]
    ));
    assert!(agent.accepts_messages());
    let effects = agent
        .message_received(batch(2, 1))
        .unwrap_or_else(|error| panic!("batch failed: {error:?}"));
    assert!(matches!(
        effects.as_slice(),
        [AgentEffect::Inject { sequence: 1, events }] if events.len() == 1
    ));
    assert!(!agent.accepts_messages());
    let stale = agent
        .batch_injected(2, 1)
        .unwrap_or_else(|error| panic!("confirmation failed: {error:?}"));
    assert!(stale.is_empty());
    assert!(!agent.accepts_messages());
    let effects = agent
        .batch_injected(3, 1)
        .unwrap_or_else(|error| panic!("confirmation failed: {error:?}"));
    assert!(matches!(
        effects.as_slice(),
        [AgentEffect::Send(Session::InputAcknowledged {
            through_sequence: 1
        })]
    ));
    assert!(agent.accepts_messages());
    assert!(matches!(
        agent.message_received(batch(1, 1)),
        Err(RuntimeError::Agent(_))
    ));
}

#[test]
fn a_changed_desktop_ends_the_control_of_an_agent() {
    let mut agent = agent(false);
    agent
        .message_received(focus(2, "right"))
        .unwrap_or_else(|error| panic!("focus failed: {error:?}"));
    assert!(agent.desktop_changed(geometry(1920, 1080)).is_empty());
    let effects = agent.desktop_changed(geometry(2560, 1440));
    assert!(matches!(
        effects.as_slice(),
        [
            AgentEffect::ReleaseInput,
            AgentEffect::Send(Session::DisplayChanged { .. }),
            AgentEffect::Tell(RuntimeEvent::AgentControl { active: false, .. }),
            AgentEffect::Tell(RuntimeEvent::LocalDesktopChanged { .. }),
        ]
    ));
    assert_eq!(agent.geometry(), geometry(2560, 1440));
}

#[test]
fn agents_refuse_clipboard_traffic_that_was_not_negotiated() {
    let transfer = ClipboardText::new(
        ClipboardGeneration::new(node("left"), NonZeroU64::min_value()),
        String::from("text"),
    )
    .unwrap_or_else(|error| panic!("transfer failed: {error:?}"));
    let mut plain = agent(false);
    assert!(matches!(
        plain.message_received(Session::Clipboard(ClipboardControl::Offered(transfer.offer()))),
        Err(RuntimeError::Session(message))
            if message == "controller sent clipboard control without negotiating it"
    ));
    let mut plain = agent(false);
    assert!(plain
        .transfer_received(&node("left"), 8, transfer.clone())
        .is_ok_and(|effects| effects.is_empty()));
    assert!(matches!(
        plain.transfer_received(&node("left"), 7, transfer),
        Err(RuntimeError::Session(message))
            if message == "controller sent clipboard data without negotiating it"
    ));
}

#[test]
fn agents_apply_the_clipboard_of_their_controller() {
    let mut agent = agent(true);
    let transfer = ClipboardText::new(
        ClipboardGeneration::new(node("left"), NonZeroU64::min_value()),
        String::from("text"),
    )
    .unwrap_or_else(|error| panic!("transfer failed: {error:?}"));
    agent
        .message_received(Session::Clipboard(ClipboardControl::Offered(transfer.offer())))
        .unwrap_or_else(|error| panic!("offer failed: {error:?}"));
    let effects = agent
        .transfer_received(&node("left"), 7, transfer)
        .unwrap_or_else(|error| panic!("transfer failed: {error:?}"));
    assert!(matches!(
        effects.as_slice(),
        [AgentEffect::ApplyClipboard { text }] if text == "text"
    ));
    let effects = agent
        .clipboard_event(ClipboardServiceEvent::Applied)
        .unwrap_or_else(|error| panic!("confirmation failed: {error:?}"));
    assert!(matches!(
        effects.as_slice(),
        [
            AgentEffect::Send(Session::Clipboard(ClipboardControl::Applied { .. })),
            AgentEffect::Tell(RuntimeEvent::ClipboardSynchronized { received: true, .. }),
        ]
    ));
    assert!(agent
        .clipboard_idle()
        .is_ok_and(|effects| effects.is_empty()));
    let effects = agent
        .clipboard_event(ClipboardServiceEvent::Ready {
            backend: BackendKind::LinuxWaylandClipboardPortal,
        })
        .unwrap_or_else(|error| panic!("event failed: {error:?}"));
    assert!(matches!(
        effects.as_slice(),
        [AgentEffect::Tell(RuntimeEvent::ClipboardReady { .. })]
    ));
    let effects = agent.clipboard_stream_failed(&node("left"), 7, "reset");
    assert!(matches!(
        effects.as_slice(),
        [AgentEffect::Tell(RuntimeEvent::Error { message })]
            if message == "Clipboard synchronization with `left` stopped: reset"
    ));
}

#[test]
fn reconnects_are_counted_and_stop() {
    let policy = ReconnectPolicy::new(
        NonZeroU32::new(2).unwrap_or(NonZeroU32::min_value()),
        Duration::from_millis(100),
        Duration::from_millis(250),
    )
    .unwrap_or_else(|error| panic!("policy failed: {error:?}"));
    let mut reconnects = Reconnects::new(policy);
    assert_eq!(reconnects.current(), 1);
    assert!(matches!(
        reconnects.next_delay(&node("left")),
        Ok(delay) if delay == Duration::from_millis(100)
    ));
    assert_eq!(reconnects.current(), 2);
    assert!(matches!(
        reconnects.next_delay(&node("left")),
        Ok(delay) if delay == Duration::from_millis(200)
    ));
    assert!(matches!(
        reconnects.next_delay(&node("left")),
        Err(RuntimeError::ReconnectExhausted(peer)) if peer == node("left")
    ));
    reconnects.connected();
    assert_eq!(reconnects.current(), 1);
}

fn config(screens: Vec<ScreenPlacement>) -> Config {
    Config::new(
        node("left"),
        Role::Controller {
            listen: String::from("0.0.0.0:24800"),
            topology: topology(screens),
            edge_behavior: EdgeBehavior::default(),
        },
    )
    .unwrap_or_else(|error| panic!("configuration failed: {error:?}"))
}

#[test]
fn sessions_start_with_trusted_peers_only() {
    let both = config(vec![
        screen("left", 0, 0, 1920, 1080),
        screen("right", 1920, 0, 1920, 1080),
    ]);
    assert_eq!(runtime_role(&both.role), RuntimeRole::Controller);
    let mut trust = TrustStore::empty();
    assert_eq!(
        validate_start(&both, &trust, RuntimeRole::Controller),
        Err(RuntimeStartError::UntrustedPeer(node("right")))
    );
    let bundle = PairingBundle::new(node("right"), vec![1]);
    let code = bundle.code();
    trust
        .trust(bundle, code.as_str())
        .unwrap_or_else(|error| panic!("pairing failed: {error:?}"));
    assert_eq!(validate_start(&both, &trust, RuntimeRole::Controller), Ok(()));
    assert_eq!(
        validate_start(&both, &trust, RuntimeRole::Agent),
        Err(RuntimeStartError::NativeRoleMismatch)
    );
    let alone = config(vec![screen("left", 0, 0, 1920, 1080)]);
    assert_eq!(
        validate_start(&alone, &trust, RuntimeRole::Controller),
        Err(RuntimeStartError::NoRemoteScreens)
    );
}

#[test]
fn profiles_and_failures_are_told() {
    let profile = session_profile(HostPlatform::Windows, true);
    assert!(profile.capabilities.clipboard_text && profile.capabilities.keyboard);
    assert!(!profile.capabilities.absolute_pointer);
    assert_eq!(native_failure("inject input", "gone"), "inject input: gone");
    assert!(should_restart_after_close(RuntimeRole::Agent, true));
}

#[test]
fn the_capture_service_drives_the_controller() {
    let mut runtime = connected(false);
    let effects = runtime
        .capture_event(
            CaptureServiceEvent::Ready {
                backend: BackendKind::LinuxWaylandInputCapture,
            },
            0,
        )
        .unwrap_or_else(|error| panic!("readiness failed: {error:?}"));
    assert!(matches!(
        effects.as_slice(),
        [Effect::Tell(RuntimeEvent::NativeReady {
            backend: BackendKind::LinuxWaylandInputCapture
        })]
    ));

    let crossing = runtime.capture_event(
        CaptureServiceEvent::Activated {
            edge: Edge::Right,
            edge_position: None,
        },
        0,
    );
    assert!(crossing.is_ok());
    assert_eq!(runtime.focus(), &node("right"));

    let key = CaptureServiceEvent::Input(key_event(0x04, KeyAction::Press));
    assert!(runtime.capture_event(key, 1).is_ok());
    let effects = runtime
        .tick(2)
        .unwrap_or_else(|error| panic!("tick failed: {error:?}"));
    assert!(effects.iter().any(|effect| matches!(
        effect,
        Effect::Send { message: Session::Input(batch), .. } if batch.events.len() == 1
    )));

    let effects = runtime
        .capture_event(CaptureServiceEvent::DesktopChanged(geometry(2560, 1440)), 3)
        .unwrap_or_else(|error| panic!("desktop change failed: {error:?}"));
    assert!(effects.iter().any(|effect| matches!(
        effect,
        Effect::Tell(RuntimeEvent::LocalDesktopChanged { geometry: shown })
            if shown.size == size(2560, 1440)
    )));

    let effects = runtime
        .capture_event(CaptureServiceEvent::Released, 4)
        .unwrap_or_else(|error| panic!("release failed: {error:?}"));
    assert!(effects.is_empty());
    assert!(matches!(
        runtime.capture_event(
            CaptureServiceEvent::Failed {
                operation: "capture input",
                reason: String::from("denied"),
            },
            5,
        ),
        Err(RuntimeError::Native(message)) if message == native_failure("capture input", "denied")
    ));
    assert!(matches!(
        runtime.capture_event(CaptureServiceEvent::Stopped, 6),
        Err(RuntimeError::Native(message)) if message == "Input capture service stopped"
    ));
}

#[test]
fn a_released_capture_forgets_the_waiting_edge() {
    let mut behavior = EdgeBehavior::default();
    behavior.switch_delay_ms = 100;
    let mut runtime = ControllerRuntime::new(
        node("left"),
        topology(vec![
            screen("left", 0, 0, 1920, 1080),
            screen("right", 1920, 0, 1920, 1080),
        ]),
        behavior,
        false,
    )
    .unwrap_or_else(|error| panic!("controller failed: {error:?}"));
    assert!(runtime.peer_connected(info("right", 7, false)).is_ok());
    let crossing = CaptureServiceEvent::Activated {
        edge: Edge::Right,
        edge_position: Some(EdgePosition::middle()),
    };
    assert!(runtime.capture_event(crossing, 0).is_ok());
    assert!(runtime.capture_event(CaptureServiceEvent::Released, 50).is_ok());
    assert!(runtime.tick(200).is_ok());
    assert_eq!(runtime.focus(), &node("left"));
}

#[test]
fn agents_release_their_input_when_they_part() {
    let agent = agent(false);
    assert!(matches!(
        agent.stopped().as_slice(),
        [AgentEffect::Send(Session::Disconnect), AgentEffect::ReleaseInput]
    ));
    assert!(matches!(agent.lost().as_slice(), [AgentEffect::ReleaseInput]));
}

#[test]
fn the_injection_service_is_heard_before_the_connection() {
    let hear = |event| injection_event_before_connection(geometry(1920, 1080), event);
    assert!(matches!(
        hear(InjectionServiceEvent::Ready {
            backend: BackendKind::WindowsSendInput,
        }),
        Ok((
            kept,
            Some(RuntimeEvent::NativeReady {
                backend: BackendKind::WindowsSendInput
            })
        )) if kept == geometry(1920, 1080)
    ));
    assert!(matches!(
        hear(InjectionServiceEvent::DesktopChanged(geometry(2560, 1440))),
        Ok((changed, None)) if changed == geometry(2560, 1440)
    ));
    assert!(matches!(
        hear(InjectionServiceEvent::Applied {
            generation: 3,
            sequence: 1,
        }),
        Ok((kept, None)) if kept == geometry(1920, 1080)
    ));
    assert!(matches!(
        hear(InjectionServiceEvent::Released { generation: 3 }),
        Ok((kept, None)) if kept == geometry(1920, 1080)
    ));
    assert!(matches!(
        hear(InjectionServiceEvent::Failed {
            operation: "inject input",
            reason: String::from("denied"),
        }),
        Err(RuntimeError::Native(message)) if message == native_failure("inject input", "denied")
    ));
    assert!(matches!(
        hear(InjectionServiceEvent::Stopped),
        Err(RuntimeError::Native(message)) if message == "Input injection service stopped"
    ));
}

#[test]
fn the_injection_service_drives_the_agent() {
    let mut agent = agent(false);
    let effects = agent
        .injection_event(InjectionServiceEvent::Ready {
            backend: BackendKind::WindowsSendInput,
        })
        .unwrap_or_else(|error| panic!("readiness failed: {error:?}"));
    assert!(matches!(
        effects.as_slice(),
        [AgentEffect::Tell(RuntimeEvent::NativeReady {
            backend: BackendKind::WindowsSendInput
        })]
    ));

    assert!(agent.message_received(focus(2, "right")).is_ok());
    assert!(agent.message_received(batch(2, 1)).is_ok());
    assert!(!agent.accepts_messages());
    let effects = agent
        .injection_event(InjectionServiceEvent::Applied {
            generation: 3,
            sequence: 1,
        })
        .unwrap_or_else(|error| panic!("confirmation failed: {error:?}"));
    assert!(matches!(
        effects.as_slice(),
        [AgentEffect::Send(Session::InputAcknowledged {
            through_sequence: 1
        })]
    ));
    assert!(agent.accepts_messages());
    let effects = agent
        .injection_event(InjectionServiceEvent::Released { generation: 3 })
        .unwrap_or_else(|error| panic!("release failed: {error:?}"));
    assert!(effects.is_empty());

    assert!(agent
        .injection_event(InjectionServiceEvent::DesktopChanged(geometry(2560, 1440)))
        .is_ok());
    assert_eq!(agent.geometry(), geometry(2560, 1440));
    assert!(matches!(
        agent.injection_event(InjectionServiceEvent::Failed {
            operation: "inject input",
            reason: String::from("denied"),
        }),
        Err(RuntimeError::Native(message)) if message == native_failure("inject input", "denied")
    ));
    assert!(matches!(
        agent.injection_event(InjectionServiceEvent::Stopped),
        Err(RuntimeError::Native(message)) if message == "Input injection service stopped"
    ));
}
