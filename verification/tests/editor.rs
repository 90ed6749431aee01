use tevir::config::Role;
use tevir::domain::arrangement::ScreenPlacement;
use tevir::domain::display::{DesktopLayout, Monitor};
use tevir::domain::geometry::{Point, Rect, Size};
use tevir::domain::identity::NodeId;
use tevir::domain::nonzero::NonZeroU32;
use tevir::editor::config_editor::{ConfigEditor, ConfigRole, EditorError, LocalDesktop};
use tevir::editor::geometry::{
    align_coordinate, geometries_are_connected, snap_candidates, AlignmentAxis,
    ScreenAlignment, ScreenGeometry,
};
use tevir::editor::monitors::{aggregate_monitor_geometry, MonitorGeometry};
use tevir::editor::screen::{parse_nonzero, DimensionError, ScreenEditor};
use tevir::runtime::event::{RuntimeEvent, RuntimeRole};
use tevir::saturating::half_of;
use tevir::window::status::{RemoteDisplay, SessionState};

fn size(width: u32, height: u32) -> Size {
    Size::new(
        NonZeroU32::new(width).unwrap_or(NonZeroU32::min_value()),
        NonZeroU32::new(height).unwrap_or(NonZeroU32::min_value()),
    )
}

fn node(value: &str) -> NodeId {
    NodeId::new(value).unwrap_or_else(|error| panic!("test node should be valid: {error:?}"))
}

fn horizontal_layout(width: u32, height: u32, monitor_count: u32) -> DesktopLayout {
    let desktop_size = size(width, height);
    let monitor_width = width / monitor_count;
    let monitors = (0..monitor_count)
        .map(|index| {
            let left = monitor_width * index;
            let width = if index + 1 == monitor_count {
                width - left
            } else {
                monitor_width
            };
            Monitor::new(
                Some(format!("Display {}", index + 1)),
                Rect::new(
                    Point {
                        x: i32::try_from(left).unwrap_or(i32::MAX),
                        y: 0,
                    },
                    size(width, height),
                ),
            )
        })
        .collect();
    DesktopLayout::new(desktop_size, monitors)
        .unwrap_or_else(|error| panic!("test desktop layout should be valid: {error:?}"))
}

fn listen() -> Result<String, String> {
    Ok(String::from("0.0.0.0:24800"))
}

#[test]
fn desktop_geometry_deduplicates_wayland_output_handles() {
    let monitor = |name: &str, x| MonitorGeometry {
        name: Some(name.to_owned()),
        x,
        y: 0,
        width: 1920,
        height: 1080,
        scale_milli: 1000,
    };
    let geometry = aggregate_monitor_geometry(&vec![
        monitor("HDMI-A-1", 0),
        monitor("DP-1", 1920),
        monitor("DP-2", 3840),
        monitor("HDMI-A-1", 0),
        monitor("DP-1", 1920),
        monitor("DP-2", 3840),
    ])
    .unwrap_or_else(|| panic!("monitor geometry should aggregate"));

    assert_eq!(geometry.origin, Point { x: 0, y: 0 });
    assert_eq!(geometry.size().width.get(), 5760);
    assert_eq!(geometry.size().height.get(), 1080);
    assert_eq!(geometry.monitor_count(), 3);
}

#[test]
fn monitors_are_placed_relative_to_the_desktop() {
    let monitor = |name: Option<&str>, x, y, width| MonitorGeometry {
        name: name.map(str::to_owned),
        x,
        y,
        width,
        height: 100,
        scale_milli: 1500,
    };
    let geometry = aggregate_monitor_geometry(&vec![
        monitor(Some("b"), 0, 0, 200),
        monitor(None, -100, 50, 100),
    ])
    .unwrap_or_else(|| panic!("monitor geometry should aggregate"));
    assert_eq!(geometry.origin, Point { x: -100, y: 0 });
    assert_eq!(geometry.size(), size(300, 150));
    let monitors = geometry.layout.monitors();
    assert_eq!(monitors[0].name, None);
    assert_eq!(monitors[0].bounds.origin, Point { x: 0, y: 50 });
    assert_eq!(monitors[1].bounds.origin, Point { x: 100, y: 0 });
    assert_eq!(monitors[1].scale_milli.get(), 1500);

    assert!(aggregate_monitor_geometry(&Vec::new()).is_none());
    assert!(aggregate_monitor_geometry(&vec![monitor(None, 0, 0, 0)]).is_none());
}

#[test]
fn configuration_editor_builds_a_valid_controller_topology() {
    let node = node("studio-left");
    let mut editor = ConfigEditor::for_node(Some(&node));
    editor.add_screen(String::from("studio-right"));

    let config = editor
        .build(node.clone(), listen())
        .unwrap_or_else(|error| {
            panic!(
                "editor should build a valid configuration: {}",
                error.message()
            )
        });

    assert_eq!(config.node, node);
    assert!(matches!(
        config.role,
        Role::Controller { topology, .. }
            if topology.screens().len() == 2
    ));
}

#[test]
fn configuration_editor_validates_agent_addresses() {
    let node = node("studio-right");
    let mut editor = ConfigEditor::for_node(Some(&node));
    editor.role = ConfigRole::Agent;
    editor.controller_address = String::from("not-an-address");
    assert_eq!(editor.address(), "not-an-address");

    let error = editor
        .build(node, Err(String::from("invalid socket address syntax")))
        .err()
        .unwrap_or_else(|| panic!("the address is invalid"));
    assert_eq!(
        error.message(),
        "Controller address: invalid socket address syntax"
    );
}

#[test]
fn configuration_editor_uses_the_local_desktop_geometry() {
    let local = node("studio-left");
    let mut editor = ConfigEditor::for_node(Some(&local));
    editor.add_screen(String::from("studio-right"));

    editor
        .set_local_desktop(
            &local,
            LocalDesktop {
                origin: Point { x: 0, y: 0 },
                layout: horizontal_layout(5_760, 1_080, 3),
            },
        )
        .unwrap_or_else(|error| panic!("monitor dimensions should apply: {error}"));

    assert_eq!(editor.selected_screen, 0);
    assert_eq!(
        editor.screens[0].geometry(),
        Some(ScreenGeometry {
            x: 0,
            y: 0,
            width: 5_760,
            height: 1_080,
        })
    );
    assert_eq!(editor.screens[0].layout.monitor_count(), 3);
    assert_eq!(
        editor.screens[1].geometry().map(|screen| (screen.x, screen.y)),
        Some((5_760, 0))
    );
}

#[test]
fn the_local_desktop_needs_a_machine() {
    let mut editor = ConfigEditor::for_node(None);
    assert_eq!(
        editor.set_local_desktop(
            &node("studio-left"),
            LocalDesktop {
                origin: Point { x: 0, y: 0 },
                layout: horizontal_layout(100, 100, 1),
            }
        ),
        Err(String::from(
            "Add the local node `studio-left` to the topology first"
        ))
    );
}

#[test]
fn cached_desktop_geometry_applies_after_a_role_change() {
    let node = node("studio-left");
    let mut editor = ConfigEditor::for_node(Some(&node));
    let desktop = LocalDesktop {
        origin: Point { x: 0, y: 0 },
        layout: horizontal_layout(5_760, 1_080, 3),
    };

    editor.role = ConfigRole::Agent;
    editor
        .apply_local_desktop(&node, desktop)
        .unwrap_or_else(|error| panic!("desktop geometry should apply: {error}"));

    assert_eq!(editor.agent_width, "5760");
    assert_eq!(editor.agent_height, "1080");
    assert_eq!(editor.agent_layout.monitor_count(), 3);
}

#[test]
fn reported_display_updates_live_state_and_the_visual_editor() {
    let local = node("studio-left");
    let remote = node("studio-right");
    let mut editor = ConfigEditor::for_node(Some(&local));
    editor.add_screen(remote.as_str().to_owned());
    let screen = ScreenPlacement::with_layout(
        remote.clone(),
        Point { x: 1920, y: -180 },
        horizontal_layout(2560, 1440, 2),
    )
    .unwrap_or_else(|error| panic!("screen layout should be valid: {error:?}"));
    let mut state = SessionState::default();

    editor.update_screen(&screen);
    state.apply(RuntimeEvent::DisplayChanged {
        screen: screen.clone(),
        monitor_count: 2,
    });

    assert_eq!(
        state.displays.get(&remote),
        Some(RemoteDisplay {
            size: screen.bounds.size,
            monitor_count: 2,
        })
    );
    assert_eq!(editor.selected_screen, 1);
    assert_eq!(
        editor.screens[1].geometry(),
        Some(ScreenGeometry {
            x: 1920,
            y: -180,
            width: 2560,
            height: 1440,
        })
    );
    assert_eq!(editor.screens[1].layout.monitor_count(), 2);
}

#[test]
fn configuration_editor_snaps_machines_to_neighboring_edges() {
    let local = node("studio-left");
    let mut editor = ConfigEditor::for_node(Some(&local));
    editor.add_screen(String::from("studio-right"));

    editor.move_screen(1, 1500, 120);
    editor.snap_screen(1);

    assert_eq!(
        editor.screens[1].geometry(),
        Some(ScreenGeometry {
            x: 1920,
            y: 120,
            width: 1920,
            height: 1080,
        })
    );
    editor
        .build(local, listen())
        .unwrap_or_else(|error| panic!("topology should be valid: {}", error.message()));
}

#[test]
fn configuration_editor_centers_a_taller_neighbor() {
    let local = node("studio-left");
    let mut editor = ConfigEditor::for_node(Some(&local));
    editor.add_screen(String::from("studio-right"));
    editor.resize_screen(1, 2560, 1440);

    assert_eq!(
        editor.screens[1].geometry(),
        Some(ScreenGeometry {
            x: 1920,
            y: -180,
            width: 2560,
            height: 1440,
        })
    );
    editor.align_screen(1, ScreenAlignment::Start);
    assert_eq!(editor.screens[1].y, "0");
}

#[test]
fn screen_geometry_rejects_zero_dimensions() {
    let screen = ScreenEditor {
        node: String::from("studio-left"),
        x: String::from("0"),
        y: String::from("0"),
        width: String::from("0"),
        height: String::from("1080"),
        layout: horizontal_layout(1920, 1080, 1),
    };

    assert_eq!(screen.geometry(), None);
}

#[test]
fn machines_are_refused_for_each_reason() {
    let refused = |change: fn(&mut ScreenEditor)| {
        let mut editor = ConfigEditor::for_node(Some(&node("studio-left")));
        change(&mut editor.screens[0]);
        editor
            .build(node("studio-left"), listen())
            .err()
            .map(|error| error.message())
            .unwrap_or_default()
    };
    assert_eq!(
        refused(|screen| screen.node = String::from(" ")),
        "Machine 1 node: node ID cannot be empty"
    );
    assert_eq!(
        refused(|screen| screen.x = String::from("")),
        "Machine 1 X: cannot parse integer from empty string"
    );
    assert_eq!(
        refused(|screen| screen.y = String::from("1x")),
        "Machine 1 Y: invalid digit found in string"
    );
    assert_eq!(
        refused(|screen| screen.x = String::from("-2147483649")),
        "Machine 1 X: number too small to fit in target type"
    );
    assert_eq!(
        refused(|screen| screen.width = String::from("4294967296")),
        "Machine 1 width: number too large to fit in target type"
    );
    assert_eq!(
        refused(|screen| screen.height = String::from("0")),
        "Machine 1 height must be greater than zero"
    );
    assert_eq!(
        refused(|screen| screen.node = String::from("other")),
        "controller node `studio-left` is missing from `role.screens`"
    );
    assert_eq!(refused(|screen| screen.x = String::from(" +7 ")), "");
}

#[test]
fn roles_are_refused_for_each_reason() {
    let mut editor = ConfigEditor::for_node(Some(&node("a")));
    assert!(matches!(
        editor.build(node("a"), Err(String::from("broken"))),
        Err(EditorError::ListenAddress(_))
    ));
    editor.add_screen(String::from("b"));
    editor.move_screen(1, 0, 0);
    assert!(matches!(
        editor.build(node("a"), listen()),
        Err(EditorError::Topology(_))
    ));
    editor.role = ConfigRole::Agent;
    editor.agent_width = String::from("0");
    let width = editor.build(node("a"), listen()).err();
    assert_eq!(
        width.map(|error| error.message()),
        Some(String::from("Agent screen width must be greater than zero"))
    );
    editor.agent_width = String::from("10");
    editor.agent_height = String::from("x");
    assert!(matches!(
        editor.build(node("a"), listen()),
        Err(EditorError::AgentHeight(_))
    ));
    editor.agent_height = String::from("10");
    editor.controller_node = String::from("-");
    assert!(matches!(
        editor.build(node("a"), listen()),
        Err(EditorError::ControllerNode(_))
    ));
    editor.controller_node = String::from("a");
    assert!(matches!(
        editor.build(node("a"), listen()),
        Err(EditorError::Config(_))
    ));
}

#[test]
fn shown_configurations_come_back() {
    let mut editor = ConfigEditor::for_node(Some(&node("a")));
    editor.add_screen(String::from("b"));
    let config = editor
        .build(node("a"), listen())
        .unwrap_or_else(|error| panic!("{}", error.message()));
    let again = ConfigEditor::from_config(&config)
        .build(node("a"), listen())
        .unwrap_or_else(|error| panic!("{}", error.message()));
    match (config.role, again.role) {
        (
            Role::Controller { topology, listen, .. },
            Role::Controller {
                topology: again,
                listen: address,
                ..
            },
        ) => {
            assert_eq!(topology, again);
            assert_eq!(listen, address);
        }
        _ => panic!("both are controllers"),
    }
    assert_eq!(
        ConfigRole::Agent.runtime_role(),
        RuntimeRole::Agent
    );
}

#[test]
fn machines_are_removed_only_while_the_rest_holds_together() {
    let mut editor = ConfigEditor::for_node(Some(&node("a")));
    assert!(!editor.can_remove_screen(0));
    editor.add_screen(String::from("b"));
    editor.add_screen(String::from("c"));
    assert!(editor.contains_node(&node("c")));
    assert!(!editor.can_remove_screen(1));
    assert!(editor.can_remove_screen(2));
    assert!(!editor.can_remove_screen(3));
    assert_eq!(editor.selected_screen, 2);
    editor.remove_selected();
    assert_eq!(editor.screens.len(), 2);
    assert_eq!(editor.selected_screen, 1);
    assert!(!editor.contains_node(&node("c")));
}

#[test]
fn machines_align_with_the_neighbor_they_touch() {
    let mut editor = ConfigEditor::for_node(Some(&node("a")));
    editor.add_screen(String::from("b"));
    assert_eq!(editor.alignment_axis(1), Some(AlignmentAxis::Vertical(0)));
    assert_eq!(editor.alignment_axis(2), None);
    editor.move_screen(1, 100, 1080);
    assert_eq!(
        editor.alignment_axis(1),
        Some(AlignmentAxis::Horizontal(0))
    );
    editor.align_screen(1, ScreenAlignment::End);
    assert_eq!(editor.screens[1].x, "0");
    editor.move_screen(1, 5000, 5000);
    assert_eq!(editor.alignment_axis(1), None);
}

#[test]
fn rectangles_snap_align_and_connect() {
    let screen = |x, y| ScreenGeometry {
        x,
        y,
        width: 100,
        height: 50,
    };
    assert_eq!(
        snap_candidates(screen(10, 500), screen(0, 0)),
        [(-100, 49), (100, 49), (10, -50), (10, 50)]
    );
    assert!(geometries_are_connected(&[screen(0, 0), screen(100, 49)]));
    assert!(!geometries_are_connected(&[screen(0, 0), screen(100, 50)]));
    assert!(!geometries_are_connected(&[]));
    assert!(screen(0, 0).overlaps(screen(99, 49)));
    assert!(!screen(0, 0).overlaps(screen(100, 0)));
    assert_eq!(align_coordinate(10, 100, 30, ScreenAlignment::Center), 45);
    assert_eq!(align_coordinate(10, 30, 101, ScreenAlignment::Center), -25);
    assert_eq!(align_coordinate(10, 100, 30, ScreenAlignment::End), 80);
    assert_eq!(
        align_coordinate(i32::MAX, 100, 30, ScreenAlignment::End),
        i32::MAX
    );
    assert_eq!(half_of(-71), -35);
    assert_eq!(half_of(71), 35);
    assert_eq!(parse_nonzero(" 7 ").map(NonZeroU32::get), Ok(7));
    assert_eq!(parse_nonzero("0"), Err(DimensionError::Zero));
}

#[test]
fn the_own_machine_starts_in_the_corner() {
    let screen = ScreenEditor::from_local_node(&node("local"));
    assert_eq!(screen.node, "local");
    assert_eq!((screen.x.as_str(), screen.y.as_str()), ("0", "0"));
    assert_eq!((screen.width.as_str(), screen.height.as_str()), ("1920", "1080"));
}
