use tevir::config::{Config, EdgeBehavior, EdgeRule, Role};
use tevir::discovery::nearby::NearbyNodes;
use tevir::discovery::record::{advertisement, DiscoveredNode, ServiceRecord};
use tevir::domain::arrangement::{ScreenPlacement, Topology};
use tevir::domain::display::{DesktopLayout, DisplayRotation, Monitor};
use tevir::domain::geometry::{Point, Rect, Size};
use tevir::domain::host::HostPlatform;
use tevir::domain::identity::NodeId;
use tevir::domain::nonzero::NonZeroU32;
use tevir::editor::config_editor::{ConfigRole, LocalDesktop};
use tevir::editor::geometry::AlignmentAxis;
use tevir::identity::pairing::{PairingBundle, PairingPayload};
use tevir::identity::store::TrustStore;
use tevir::platform::geometry::DesktopGeometry;
use tevir::protocol::message::Capabilities;
use tevir::runtime::event::{RuntimeEvent, RuntimeRole};
use tevir::window::labels::format_fingerprint;
use tevir::window::machine::{alignment_labels, monitor_lines, range_limits};
use tevir::window::model::{configured_address, DesktopModel};
use tevir::window::pairing::{empty_nearby_text, nearby_rows, trusted_rows};
use tevir::window::status::{SessionPhase, Tone};

fn node(value: &str) -> NodeId {
    NodeId::new(value).unwrap_or_else(|error| panic!("test node should be valid: {error:?}"))
}

fn size(width: u32, height: u32) -> Size {
    Size::new(
        NonZeroU32::new(width).unwrap_or(NonZeroU32::min_value()),
        NonZeroU32::new(height).unwrap_or(NonZeroU32::min_value()),
    )
}

fn screen(name: &str, x: i32) -> ScreenPlacement {
    ScreenPlacement::single(
        node(name),
        Rect::new(Point { x, y: 0 }, size(1920, 1080)),
    )
}

fn controller_config(name: &str) -> Config {
    let topology = Topology::new(vec![screen(name, 0), screen("right", 1920)])
        .unwrap_or_else(|error| panic!("topology should be valid: {error:?}"));
    Config::new(
        node(name),
        Role::Controller {
            listen: String::from("0.0.0.0:24800"),
            topology,
            edge_behavior: EdgeBehavior::default(),
        },
    )
    .unwrap_or_else(|error| panic!("configuration should be valid: {error:?}"))
}

fn model() -> DesktopModel {
    DesktopModel::new(Some(node("left")), true, true)
}

fn notice(model: &DesktopModel) -> (&str, Tone) {
    match &model.notice {
        Some(notice) => (notice.message.as_str(), notice.tone),
        None => ("", Tone::Plain),
    }
}

fn address(model: &DesktopModel) -> Result<String, String> {
    Ok(model.editor.address().to_owned())
}

fn desktop(width: u32, height: u32) -> LocalDesktop {
    LocalDesktop {
        origin: Point { x: 0, y: 0 },
        layout: DesktopLayout::single(size(width, height)),
    }
}

#[test]
fn sessions_need_native_input_an_identity_and_the_trusted_nodes() {
    let mut closed = DesktopModel::new(Some(node("left")), true, false);
    assert!(!closed.begin_session());
    assert_eq!(
        notice(&closed),
        (
            "Native desktop input prerequisites are unavailable",
            Tone::Danger
        )
    );
    let mut unnamed = DesktopModel::new(None, true, true);
    assert!(!unnamed.begin_session());
    assert_eq!(
        notice(&unnamed),
        ("Local identity is not ready", Tone::Danger)
    );
    let mut alone = DesktopModel::new(Some(node("left")), false, true);
    assert!(!alone.begin_session());
    assert_eq!(notice(&alone), ("Trust store is not ready", Tone::Danger));

    let mut ready = model();
    assert!(ready.begin_session());
    ready.session_started();
    assert!(ready.session_running);
    assert_eq!(notice(&ready), ("Session starting", Tone::Accent));
    ready.session_refused(String::from("no peers"));
    assert_eq!(notice(&ready), ("no peers", Tone::Danger));
    assert_eq!(ready.session_state.last_error.as_deref(), Some("no peers"));
    ready.stop_session();
    assert!(!ready.session_running);
    assert_eq!(ready.session_state.phase, SessionPhase::Stopped);
}

#[test]
fn a_new_identity_starts_over() {
    let mut model = DesktopModel::new(None, false, true);
    model.identity_ready(node("studio"));
    assert_eq!(model.local_node, Some(node("studio")));
    assert!(model.has_trust);
    assert_eq!(model.editor.screens[0].node, "studio");
    assert_eq!(notice(&model), ("Local identity ready", Tone::Success));
}

#[test]
fn read_configurations_are_shown_and_started() {
    let mut model = model();
    assert!(model.config_loaded(controller_config("other"), true).is_none());
    assert_eq!(
        notice(&model),
        (
            "Configuration belongs to `other`, not `left`",
            Tone::Danger
        )
    );

    let starting = model
        .config_loaded(controller_config("left"), true)
        .unwrap_or_else(|| panic!("a session should start"));
    assert_eq!(starting.node, node("left"));
    assert_eq!(notice(&model), ("Configuration loaded", Tone::Success));
    assert_eq!(model.editor.screens.len(), 2);
    assert!(model.config_for(RuntimeRole::Controller).is_some());
    assert!(model.config_for(RuntimeRole::Agent).is_none());
    assert!(model.config_summary.is_some());

    model.config_missing(String::from("no file"));
    assert!(model.saved_config.is_none());
    assert!(model.config_summary.is_none());
    assert_eq!(notice(&model), ("no file", Tone::Danger));
}

#[test]
fn deferred_configurations_follow_the_desktop_that_was_seen() {
    let mut model = model();
    assert!(model
        .config_loaded(controller_config("left"), false)
        .is_none());
    assert!(model.startup_config.is_some());
    model.desktop_seen(desktop(2560, 1080));
    let described = address(&model);
    let config = model
        .take_deferred(described)
        .unwrap_or_else(|| panic!("a session should start"));
    match &config.role {
        Role::Controller { topology, .. } => assert_eq!(
            topology
                .screen(&node("left"))
                .map(|screen| screen.bounds.size),
            Some(size(2560, 1080))
        ),
        Role::Agent { .. } => panic!("the configuration is of a controller"),
    }
    assert!(model.startup_config.is_none());
    assert!(model.take_deferred(Ok(String::new())).is_none());
}

#[test]
fn described_configurations_are_saved() {
    let mut model = model();
    assert!(model
        .config_loaded(controller_config("left"), true)
        .is_some());
    assert!(model.config_to_save(address(&model), false).is_none());
    assert_eq!(
        notice(&model),
        ("Configuration path is required", Tone::Danger)
    );

    let (config, live) = model
        .config_to_save(address(&model), true)
        .unwrap_or_else(|| panic!("the configuration should be saved"));
    assert!(!live);
    assert_eq!(configured_address(&config), "0.0.0.0:24800");
    model.config_saved(&config, false);
    assert_eq!(notice(&model), ("Configuration saved", Tone::Success));

    model.session_started();
    assert!(!model.session_event(RuntimeEvent::Starting {
        role: RuntimeRole::Controller,
    }));
    let (config, live) = model
        .config_to_save(address(&model), true)
        .unwrap_or_else(|| panic!("the configuration should be saved"));
    assert!(live);
    model.config_saved(&config, live);
    assert_eq!(
        notice(&model),
        ("Configuration saved and applying", Tone::Success)
    );

    model.editor.screens[0].width = String::from("zero");
    assert!(model.config_to_save(address(&model), true).is_none());
    assert_eq!(notice(&model).1, Tone::Danger);
}

#[test]
fn session_events_reach_the_fields_and_the_notice() {
    let mut model = model();
    assert!(model
        .config_loaded(controller_config("left"), true)
        .is_some());
    model.session_started();
    let stopped = model.session_event(RuntimeEvent::DisplayChanged {
        screen: ScreenPlacement::single(
            node("right"),
            Rect::new(Point { x: 1920, y: 0 }, size(2560, 1440)),
        ),
        monitor_count: 1,
    });
    assert!(!stopped);
    assert_eq!(model.editor.screens[1].width, "2560");
    assert_eq!(model.editor.screens[1].height, "1440");
    let stopped = model.session_event(RuntimeEvent::LocalDesktopChanged {
        geometry: DesktopGeometry {
            origin: Point { x: 0, y: 0 },
            size: size(1280, 720),
            monitor_count: 1,
        },
    });
    assert!(!stopped);
    assert_eq!(model.editor.screens[0].width, "1280");
    assert_eq!(
        model.local_desktop.as_ref().map(LocalDesktop::size),
        Some(size(1280, 720))
    );
    assert!(!model.session_event(RuntimeEvent::Error {
        message: String::from("lost"),
    }));
    assert_eq!(notice(&model), ("lost", Tone::Danger));
    assert!(model.session_event(RuntimeEvent::Stopped));
}

#[test]
fn pairing_and_unpairing_are_told() {
    let mut model = model();
    model.editor.role = ConfigRole::Agent;
    assert!(model.node_paired(&node("studio")).is_none());
    assert_eq!(model.editor.controller_node, "studio");
    assert_eq!(notice(&model), ("Paired with studio", Tone::Success));

    assert!(model
        .config_loaded(controller_config("left"), true)
        .is_some());
    model.session_started();
    assert!(model.node_paired(&node("other")).is_some());

    model.node_removed(&node("other"), false);
    assert_eq!(notice(&model), ("other is not paired", Tone::Danger));
    assert!(model.session_running);
    model.node_removed(&node("other"), true);
    assert_eq!(notice(&model), ("Removed other", Tone::Success));
    assert!(!model.session_running);
}

fn payload(content: &[u8]) -> Result<PairingPayload, String> {
    let value: serde_json::Value =
        serde_json::from_slice(content).map_err(|error| error.to_string())?;
    let field = |name: &str| value.get(name).ok_or(format!("missing field `{name}`"));
    Ok(PairingPayload {
        version: u8::try_from(field("version")?.as_u64().unwrap_or(0)).unwrap_or(0),
        node: NodeId::new(field("node")?.as_str().unwrap_or(""))
            .map_err(|error| error.message())?,
        trust_anchor: field("trust_anchor")?.as_str().unwrap_or("").to_owned(),
    })
}

fn discovered(bundle: &PairingBundle) -> DiscoveredNode {
    let announced = advertisement(bundle, HostPlatform::Windows, Capabilities::default())
        .unwrap_or_else(|error| panic!("bundle should fit: {error:?}"));
    DiscoveredNode::from_resolved(
        &ServiceRecord {
            fullname: announced.instance,
            properties: announced.properties,
            addresses: Vec::new(),
        },
        payload,
    )
    .unwrap_or_else(|error| panic!("record should be valid: {error:?}"))
}

#[test]
fn pairing_rows_tell_who_is_trusted() {
    let known = PairingBundle::new(node("known"), vec![1, 2, 3]);
    let stranger = PairingBundle::new(node("stranger"), vec![4, 5, 6]);
    let mut trust = TrustStore::empty();
    let code = known.code();
    assert!(trust.trust(known.clone(), code.as_str()).is_ok());
    let mut nearby = NearbyNodes::new();
    nearby.upsert(discovered(&stranger));
    nearby.upsert(discovered(&known));

    let rows = nearby_rows(&nearby, &trust);
    assert_eq!(rows.len(), 2);
    for row in &rows {
        assert_eq!(row.paired, row.node == node("known"));
    }
    let rows = trusted_rows(&trust);
    assert_eq!(rows.len(), 1);
    assert_eq!(rows[0].node, node("known"));
    assert!(rows[0].paired);
    assert_eq!(
        rows[0].fingerprint,
        format_fingerprint(&known.fingerprint())
    );
    assert_eq!(empty_nearby_text(true), "Searching the local network");
    assert_eq!(
        empty_nearby_text(false),
        "Local network discovery unavailable"
    );
}

#[test]
fn monitors_are_described_in_a_line_each() {
    let mut named = Monitor::new(
        Some(String::from("DP-1")),
        Rect::new(Point { x: 0, y: 0 }, size(1920, 1080)),
    );
    named.scale_milli = NonZeroU32::new(1250).unwrap_or(NonZeroU32::min_value());
    named.rotation = DisplayRotation::Clockwise90;
    let plain = Monitor::new(None, Rect::new(Point { x: 1920, y: 0 }, size(1280, 1080)));
    let layout = DesktopLayout::new(size(3200, 1080), vec![named, plain])
        .unwrap_or_else(|error| panic!("layout should be valid: {error:?}"));
    let lines = monitor_lines(&layout);
    assert_eq!(lines.len(), 2);
    assert!(lines[0].starts_with("DP-1: 1920 x 1080 at 125%, "));
    assert!(lines[1].starts_with("Display 2: 1280 x 1080 at 100%, "));
    assert_ne!(lines[0], lines[1]);
}

#[test]
fn alignments_and_ranges_are_bounded() {
    assert_eq!(
        alignment_labels(AlignmentAxis::Vertical(0)),
        ("Top", "Center", "Bottom")
    );
    assert_eq!(
        alignment_labels(AlignmentAxis::Horizontal(0)),
        ("Left", "Center", "Right")
    );
    let rule = EdgeRule {
        enabled: true,
        active_start_percent: 20,
        active_end_percent: 80,
    };
    assert_eq!(range_limits(rule), (79, 21));
    let empty = EdgeRule {
        enabled: true,
        active_start_percent: u8::MAX,
        active_end_percent: 0,
    };
    assert_eq!(range_limits(empty), (0, u8::MAX));
}
