use tevir::config::{Config, EdgeBehavior, Role};
use tevir::desktop::{escape_desktop_exec, linux_autostart_entry, tray_icon};
use tevir::discovery::address::IpAddress;
use tevir::domain::arrangement::{ScreenPlacement, Topology};
use tevir::domain::display::{DesktopLayout, DisplayRotation};
use tevir::domain::geometry::{Point, Rect, Size};
use tevir::domain::host::HostPlatform;
use tevir::domain::identity::NodeId;
use tevir::domain::nonzero::NonZeroU32;
use tevir::editor::config_editor::{ConfigEditor, ConfigRole};
use tevir::identity::pairing::PairingBundle;
use tevir::identity::store::TrustStore;
use tevir::platform::report::BackendKind;
use tevir::runtime::event::{RuntimeEvent, RuntimeRole};
use tevir::window::decisions::{
    adopt_controller, can_apply_live, can_try_pairing, choose_controller,
    discovered_controller_address, hides_on_close, keeps_native_input, may_remove_selected,
    ownership_error, repaint_interval_millis, restarts_after_pairing, restarts_native_input,
    suggested_node,
};
use tevir::window::labels::{
    canvas_label, component_target, config_summary, format_discovered_node, format_elapsed,
    format_fingerprint, rotation_label,
};
use tevir::window::notice::session_notice;
use tevir::window::rows::{native_input_status, readiness_rows, session_rows, NativeService};
use tevir::window::status::{SessionPhase, SessionState, Tone};

fn node(value: &str) -> NodeId {
    NodeId::new(value).unwrap_or_else(|error| panic!("test node should be valid: {error:?}"))
}

fn size(width: u32, height: u32) -> Size {
    Size::new(
        NonZeroU32::new(width).unwrap_or(NonZeroU32::min_value()),
        NonZeroU32::new(height).unwrap_or(NonZeroU32::min_value()),
    )
}

fn screen(name: &str, x: i32) -> ScreenPlacement {
    ScreenPlacement::single(
        node(name),
        Rect::new(Point { x, y: 0 }, size(1920, 1080)),
    )
}

fn live_state() -> SessionState {
    let remote = node("studio-right");
    let mut state = SessionState::default();
    state.apply(RuntimeEvent::Starting {
        role: RuntimeRole::Controller,
    });
    state.apply(RuntimeEvent::NativeReady {
        backend: BackendKind::WindowsHooks,
    });
    state.apply(RuntimeEvent::Connected {
        peer: remote.clone(),
        session_id: 42,
    });
    state.apply(RuntimeEvent::FocusChanged { node: remote });
    state
}

#[test]
fn live_status_distinguishes_connection_and_remote_focus() {
    let state = live_state();

    assert!(state.is_ready());
    assert!(state.is_controlling_remote());
    assert_eq!(state.status().0, "Connected");
}

#[test]
fn departed_nodes_are_not_controlled() {
    let mut state = live_state();
    state.apply(RuntimeEvent::Disconnected {
        peer: node("studio-right"),
        reason: String::from("gone"),
    });
    assert!(!state.is_controlling_remote());
    assert!(!state.is_ready());
    assert_eq!(state.phase, SessionPhase::Listening);
    assert_eq!(state.last_error.as_deref(), Some("studio-right: gone"));
    state.apply(RuntimeEvent::Stopped);
    assert_eq!(state.status(), ("Failed", Tone::Danger));
    state.stop();
    assert_eq!(state.status(), ("Stopped", Tone::Muted));
    state.record_error(String::from("broken"));
    assert_eq!(state.phase, SessionPhase::Failed);
    assert_eq!(state.role_label(), "Not running");
}

#[test]
fn agents_show_who_controls_them() {
    let mut state = SessionState::default();
    state.apply(RuntimeEvent::Starting {
        role: RuntimeRole::Agent,
    });
    state.apply(RuntimeEvent::Connecting {
        peer: node("left"),
        address: String::from("192.0.2.1:24800"),
        attempt: 1,
    });
    assert_eq!(state.status().0, "Connecting");
    state.apply(RuntimeEvent::Connected {
        peer: node("left"),
        session_id: 1,
    });
    state.apply(RuntimeEvent::ClipboardReady {
        backend: BackendKind::WindowsClipboard,
    });
    state.apply(RuntimeEvent::AgentControl {
        controller: node("left"),
        active: true,
    });
    let rows = session_rows(&state, true, NativeService::Ready);
    let shown: Vec<(&str, &str)> = rows
        .iter()
        .map(|row| (row.label.as_str(), row.value.as_str()))
        .collect();
    assert_eq!(
        shown,
        vec![
            ("State", "Connected"),
            ("Native permission", "Granted"),
            ("Text clipboard", "Ready"),
            ("Controller", "left"),
            ("Remote input", "Being controlled"),
        ]
    );
}

#[test]
fn controllers_show_their_agents() {
    let mut state = live_state();
    state.apply(RuntimeEvent::DisplayChanged {
        screen: screen("studio-right", 1920),
        monitor_count: 2,
    });
    let rows = session_rows(&state, false, NativeService::NotStarted);
    let shown: Vec<(&str, &str)> = rows
        .iter()
        .map(|row| (row.label.as_str(), row.value.as_str()))
        .collect();
    assert_eq!(
        shown,
        vec![
            ("State", "Connected"),
            ("Native permission", "Unavailable"),
            ("Text clipboard", "Waiting"),
            ("Connected agents", "1"),
            ("Control target", "studio-right"),
            ("Agent", "studio-right"),
            ("studio-right desktop", "1920 x 1080 | 2 displays"),
        ]
    );
    let rows = readiness_rows(true, 0, 2, true, &state);
    assert_eq!(rows[1].value, "0");
    assert_eq!(rows[1].tone, Tone::Warning);
    assert_eq!(rows[2].value, "2");
    assert_eq!(rows[3].value, "Authenticated");
    assert_eq!(
        native_input_status(true, NativeService::Closed),
        ("Closed", Tone::Danger)
    );
}

#[test]
fn events_give_notices() {
    let state = live_state();
    let notice = |event: RuntimeEvent| {
        session_notice(&event, &state).map(|notice| (notice.message, notice.tone))
    };
    assert_eq!(
        notice(RuntimeEvent::Connected {
            peer: node("a"),
            session_id: 1
        }),
        Some((String::from("Connected to a"), Tone::Success))
    );
    assert_eq!(
        notice(RuntimeEvent::FocusChanged {
            node: node("studio-right")
        }),
        Some((String::from("Controlling studio-right"), Tone::Accent))
    );
    assert_eq!(
        notice(RuntimeEvent::FocusChanged { node: node("a") }),
        None
    );
    assert_eq!(
        notice(RuntimeEvent::DisplayChanged {
            screen: screen("a", 0),
            monitor_count: 3
        }),
        Some((
            String::from("a desktop updated to 1920 x 1080 across 3 displays"),
            Tone::Accent
        ))
    );
    assert_eq!(
        notice(RuntimeEvent::ClipboardSynchronized {
            peer: node("a"),
            received: false
        }),
        Some((String::from("Clipboard sent to a"), Tone::Accent))
    );
    assert_eq!(
        notice(RuntimeEvent::Error {
            message: String::from("broken")
        }),
        Some((String::from("broken"), Tone::Danger))
    );
    assert_eq!(notice(RuntimeEvent::Stopped), None);
}

#[test]
fn texts_are_formatted() {
    assert_eq!(format_elapsed(0), "+00:00.000");
    assert_eq!(format_elapsed(83_045), "+01:23.045");
    assert_eq!(format_elapsed(6_000_000), "+100:00.000");
    assert_eq!(component_target("tevir::runtime"), "tevir");
    assert_eq!(component_target("mdns_sd"), "mdns_sd");
    assert_eq!(component_target("::a"), "");
    let mut fingerprint = [0u8; 32];
    fingerprint[0] = 0xab;
    fingerprint[11] = 1;
    assert_eq!(
        format_fingerprint(&fingerprint),
        "AB00-0000-0000-0000-0000-0001"
    );
    assert_eq!(
        format_discovered_node(HostPlatform::Windows, &Vec::new()),
        "Windows | address pending"
    );
    assert_eq!(
        format_discovered_node(
            HostPlatform::LinuxWayland,
            &vec![String::from("192.0.2.1"), String::from("192.0.2.2")]
        ),
        "Linux Wayland | 192.0.2.1, 192.0.2.2"
    );
    assert_eq!(rotation_label(DisplayRotation::Clockwise90), "90 degrees");
    assert_eq!(canvas_label("studio-left", 11), "studio-left");
    assert_eq!(canvas_label("studio-left", 8), "studi...");
    assert_eq!(canvas_label("studio-left", 3), "...");
}

fn controller(listen: &str) -> Config {
    Config::new(
        node("left"),
        Role::Controller {
            listen: listen.to_owned(),
            topology: Topology::new(vec![screen("left", 0), screen("right", 1920)])
                .unwrap_or_else(|error| panic!("topology failed: {error:?}")),
            edge_behavior: EdgeBehavior::default(),
        },
    )
    .unwrap_or_else(|error| panic!("configuration failed: {error:?}"))
}

#[test]
fn configurations_are_summed_up() {
    assert_eq!(
        config_summary(&controller("0.0.0.0:24800")),
        "Controller left | 0.0.0.0:24800 | 2 screens"
    );
    let agent = Config::new(
        node("right"),
        Role::Agent {
            controller_node: node("left"),
            controller: String::from("192.0.2.1:24800"),
            display_layout: DesktopLayout::single(size(10, 10)),
        },
    )
    .unwrap_or_else(|error| panic!("configuration failed: {error:?}"));
    assert_eq!(
        config_summary(&agent),
        "Agent right | controller left at 192.0.2.1:24800"
    );
    assert_eq!(
        ownership_error(&agent, &node("left")),
        Some(String::from("Configuration belongs to `right`, not `left`"))
    );
    assert_eq!(ownership_error(&agent, &node("right")), None);
}

#[test]
fn running_controllers_take_a_new_topology() {
    let role = Some(RuntimeRole::Controller);
    let (old, moved) = (controller("0.0.0.0:24800"), controller("0.0.0.0:24801"));
    assert!(can_apply_live(true, role, Some(&old), &old));
    assert!(!can_apply_live(true, role, Some(&old), &moved));
    assert!(!can_apply_live(false, role, Some(&old), &old));
    assert!(!can_apply_live(true, None, Some(&old), &old));
    assert!(!can_apply_live(true, role, None, &old));
}

#[test]
fn services_and_windows_stay_when_they_should() {
    let role = RuntimeRole::Agent;
    assert!(keeps_native_input(Some(role), false, role));
    assert!(!keeps_native_input(Some(role), true, role));
    assert!(!keeps_native_input(None, false, role));
    assert!(restarts_native_input(false, true, true, false));
    assert!(!restarts_native_input(true, true, true, false));
    assert!(hides_on_close(false, true, true));
    assert!(!hides_on_close(true, true, true));
    assert!(restarts_after_pairing(true, &SessionState::default()));
    assert!(!restarts_after_pairing(false, &SessionState::default()));
    assert!(can_try_pairing("bundle", " code "));
    assert!(!can_try_pairing("bundle", "  "));
    assert_eq!(repaint_interval_millis(true, true), 50);
    assert_eq!(repaint_interval_millis(false, true), 500);
}

fn trusting(name: &str) -> TrustStore {
    let mut trust = TrustStore::empty();
    let bundle = PairingBundle::new(node(name), vec![1]);
    let code = bundle.code();
    trust
        .trust(bundle, code.as_str())
        .unwrap_or_else(|error| panic!("pairing failed: {error:?}"));
    trust
}

#[test]
fn trusted_nodes_are_suggested() {
    let trust = trusting("right");
    let mut editor = ConfigEditor::for_node(Some(&node("left")));
    assert_eq!(suggested_node(&trust, &editor), "right");
    editor.add_screen(String::from("right"));
    assert_eq!(suggested_node(&trust, &editor), "peer-node");
    assert!(may_remove_selected(&editor, Some(&node("left"))));
    editor.selected_screen = 0;
    assert!(!may_remove_selected(&editor, Some(&node("left"))));
    assert!(may_remove_selected(&editor, None));
    assert!(!adopt_controller(&mut editor, &node("right")));
    editor.role = ConfigRole::Agent;
    assert!(adopt_controller(&mut editor, &node("right")));
    assert_eq!(editor.controller_node, "right");
    editor.controller_node = String::from("peer-node");
    choose_controller(&mut editor, &trust);
    assert_eq!(editor.controller_node, "right");
}

#[test]
fn discovered_controllers_are_reached_over_ipv4_first() {
    let six = IpAddress::V6(1 << 100);
    let four = IpAddress::V4(0xc000_0201);
    assert_eq!(
        discovered_controller_address(&[six, four], 24800),
        Some((four, 24800))
    );
    assert_eq!(
        discovered_controller_address(&[six], 24800),
        Some((six, 24800))
    );
    assert_eq!(discovered_controller_address(&[four], 0), None);
    assert_eq!(discovered_controller_address(&[], 24800), None);
}

#[test]
fn linux_autostart_quotes_the_executable() {
    let entry = linux_autostart_entry("/opt/Tevir $Build/tevir");

    assert!(entry.contains("Exec=\"/opt/Tevir \\$Build/tevir\""));
    assert!(entry.contains("Terminal=false"));
}

#[test]
fn reserved_characters_are_escaped() {
    assert_eq!(escape_desktop_exec("a\"b`c\\d"), "a\\\"b\\`c\\\\d");
}

#[test]
fn the_tray_icon_is_a_disc_with_a_letter() {
    let icon = tray_icon();
    let pixel = |x: usize, y: usize| &icon[(y * 32 + x) * 4..(y * 32 + x) * 4 + 4];
    assert_eq!(icon.len(), 4096);
    assert_eq!(pixel(0, 0), &[0, 0, 0, 0]);
    assert_eq!(pixel(16, 10), &[231, 234, 232, 255]);
    assert_eq!(pixel(16, 1), &[50, 185, 164, 255]);
    assert_eq!(pixel(5, 16), &[28, 31, 32, 255]);
}
