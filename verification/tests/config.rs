use tevir::config::{
    Config, ConfigError, ConfigFile, EdgeBehavior, EdgePosition, EdgeRule, Role, RoleFile,
    ScreenFile, EDGE_UNITS,
};
use tevir::domain::identity::NodeId;
use tevir::domain::nonzero::NonZeroU32;
use tevir::domain::topology::Edge;

fn node(value: &str) -> NodeId {
    NodeId::new(value).unwrap_or_else(|error| panic!("invalid test node: {error:?}"))
}

fn length(value: u32) -> NonZeroU32 {
    NonZeroU32::new(value).unwrap_or(NonZeroU32::min_value())
}

fn position(fraction: f64) -> EdgePosition {
    EdgePosition::from_units((fraction.clamp(0.0, 1.0) * EDGE_UNITS as f64).round() as u64)
}

fn number(table: &toml::Value, key: &str) -> Option<i64> {
    table.get(key)?.as_integer()
}

fn rule(table: Option<&toml::Value>) -> Option<EdgeRule> {
    let mut rule = EdgeRule::default();
    if let Some(table) = table {
        if let Some(enabled) = table.get("enabled") {
            rule.enabled = enabled.as_bool()?;
        }
        if let Some(start) = number(table, "active_start_percent") {
            rule.active_start_percent = u8::try_from(start).ok()?;
        }
        if let Some(end) = number(table, "active_end_percent") {
            rule.active_end_percent = u8::try_from(end).ok()?;
        }
    }
    Some(rule)
}

fn behavior(table: Option<&toml::Value>) -> Option<EdgeBehavior> {
    let mut behavior = EdgeBehavior::default();
    if let Some(table) = table {
        if let Some(zone) = number(table, "corner_dead_zone_percent") {
            behavior.corner_dead_zone_percent = u8::try_from(zone).ok()?;
        }
        if let Some(delay) = number(table, "switch_delay_ms") {
            behavior.switch_delay_ms = u32::try_from(delay).ok()?;
        }
        behavior.left = rule(table.get("left"))?;
        behavior.right = rule(table.get("right"))?;
        behavior.top = rule(table.get("top"))?;
        behavior.bottom = rule(table.get("bottom"))?;
    }
    Some(behavior)
}

fn file(text: &str) -> Option<ConfigFile> {
    let table: toml::Value = toml::from_str(text).ok()?;
    let role = table.get("role")?;
    let text = |table: &toml::Value, key: &str| Some(table.get(key)?.as_str()?.to_owned());
    let side =
        |table: &toml::Value, key: &str| NonZeroU32::new(u32::try_from(number(table, key)?).ok()?);
    let role = match role.get("kind")?.as_str()? {
        "controller" => RoleFile::Controller {
            listen: text(role, "listen")?,
            screens: role
                .get("screens")?
                .as_array()?
                .iter()
                .map(|screen| {
                    Some(ScreenFile {
                        node: NodeId::new(screen.get("node")?.as_str()?).ok()?,
                        x: i32::try_from(number(screen, "x")?).ok()?,
                        y: i32::try_from(number(screen, "y")?).ok()?,
                        width: side(screen, "width")?,
                        height: side(screen, "height")?,
                    })
                })
                .collect::<Option<Vec<_>>>()?,
            edge_behavior: behavior(role.get("edge_behavior"))?,
        },
        _ => RoleFile::Agent {
            controller_node: NodeId::new(role.get("controller_node")?.as_str()?).ok()?,
            controller: text(role, "controller")?,
            display_width: side(role, "display_width")?,
            display_height: side(role, "display_height")?,
        },
    };
    Some(ConfigFile {
        node: NodeId::new(table.get("node")?.get("id")?.as_str()?).ok()?,
        role,
    })
}

fn parsed(text: &str) -> Result<Config, ConfigError> {
    file(text)
        .unwrap_or_else(|| panic!("the test configuration should be readable"))
        .validate()
}

#[test]
fn edge_behavior_applies_ranges_and_corner_dead_zones() {
    let mut behavior = EdgeBehavior {
        corner_dead_zone_percent: 10,
        ..EdgeBehavior::default()
    };
    behavior.right.active_start_percent = 5;
    behavior.right.active_end_percent = 80;

    assert!(!behavior.allows(Edge::Right, position(0.09)));
    assert!(behavior.allows(Edge::Right, position(0.10)));
    assert!(behavior.allows(Edge::Right, position(0.80)));
    assert!(!behavior.allows(Edge::Right, position(0.81)));
    behavior.right.enabled = false;
    assert!(!behavior.allows(Edge::Right, position(0.5)));
}

#[test]
fn edge_positions_become_pixels() {
    assert_eq!(EdgePosition::middle().offset_within(1079), 540);
    assert_eq!(position(0.0).offset_within(1079), 0);
    assert_eq!(position(1.0).offset_within(1079), 1079);
    assert_eq!(position(0.05).offset_within(1079), 54);
}

#[test]
fn active_intervals_follow_the_rules() {
    let mut behavior = EdgeBehavior::default();
    assert_eq!(behavior.active_interval(Edge::Top), Some((2, 98)));
    behavior.rule_mut(Edge::Top).active_start_percent = 40;
    assert_eq!(behavior.active_interval(Edge::Top), Some((40, 98)));
    behavior.top.enabled = false;
    assert_eq!(behavior.active_interval(Edge::Top), None);
    assert_eq!(behavior.rule(Edge::Top), behavior.top);
}

#[test]
fn parses_a_controller_topology() {
    let config = parsed(
        r#"
            [node]
            id = "left"

            [role]
            kind = "controller"
            listen = "0.0.0.0:24800"

            [[role.screens]]
            node = "left"
            x = 0
            y = 180
            width = 1920
            height = 1080

            [[role.screens]]
            node = "right"
            x = 1920
            y = 0
            width = 2560
            height = 1440
        "#,
    )
    .unwrap_or_else(|error| panic!("configuration should be valid: {error:?}"));

    assert_eq!(config.node.as_str(), "left");
    assert!(matches!(
        config.role,
        Role::Controller { topology, .. } if topology.screens().len() == 2
    ));
}

#[test]
fn requires_the_controller_in_its_topology() {
    let result = parsed(
        r#"
            [node]
            id = "left"

            [role]
            kind = "controller"
            listen = "127.0.0.1:24800"

            [[role.screens]]
            node = "right"
            x = 1920
            y = 0
            width = 1920
            height = 1080
        "#,
    );

    assert!(matches!(result, Err(ConfigError::MissingLocalScreen(_))));
}

#[test]
fn rejects_invalid_edge_behavior() {
    let result = parsed(
        r#"
            [node]
            id = "left"

            [role]
            kind = "controller"
            listen = "127.0.0.1:24800"

            [role.edge_behavior]
            corner_dead_zone_percent = 50

            [[role.screens]]
            node = "left"
            x = 0
            y = 0
            width = 1920
            height = 1080
        "#,
    );

    assert!(matches!(result, Err(ConfigError::InvalidEdgeBehavior(_))));
}

#[test]
fn edge_behavior_is_refused_for_each_reason() {
    let reason = |change: fn(&mut EdgeBehavior)| {
        let mut behavior = EdgeBehavior::default();
        change(&mut behavior);
        behavior.validate().err().map(|error| error.message())
    };
    assert_eq!(reason(|_| ()), None);
    assert!(reason(|behavior| behavior.switch_delay_ms = 5_001).is_some());
    assert_eq!(
        reason(|behavior| behavior.top.active_end_percent = 0),
        Some(String::from(
            "edge behavior is invalid: top edge active range must increase between 0% and 100%"
        ))
    );
    assert!(reason(|behavior| behavior.left.active_end_percent = 101).is_some());
    assert!(reason(|behavior| behavior.right.active_start_percent = 100).is_some());
    assert!(reason(|behavior| behavior.bottom.active_start_percent = 100).is_some());
}

#[test]
fn parses_an_agent_controller_and_display() {
    let config = parsed(
        r#"
            [node]
            id = "right"

            [role]
            kind = "agent"
            controller_node = "left"
            controller = "192.0.2.1:24800"
            display_width = 2560
            display_height = 1440
        "#,
    )
    .unwrap_or_else(|error| panic!("configuration should be valid: {error:?}"));

    assert!(matches!(
        config.role,
        Role::Agent {
            controller_node,
            display_layout,
            ..
        } if controller_node.as_str() == "left"
            && display_layout.size().width.get() == 2560
            && display_layout.size().height.get() == 1440
    ));
}

#[test]
fn agents_are_not_their_own_controllers() {
    let result = ConfigFile {
        node: node("left"),
        role: RoleFile::Agent {
            controller_node: node("left"),
            controller: String::from("127.0.0.1:24800"),
            display_width: length(10),
            display_height: length(10),
        },
    }
    .validate();
    let error = result.err().unwrap_or_else(|| panic!("the node is its own"));
    assert_eq!(
        error.message(),
        "agent node `left` cannot use itself as its controller"
    );
}

#[test]
fn misplaced_screens_are_refused() {
    let screen = |name: &str, x| ScreenFile {
        node: node(name),
        x,
        y: 0,
        width: length(100),
        height: length(100),
    };
    let result = ConfigFile {
        node: node("left"),
        role: RoleFile::Controller {
            listen: String::from("127.0.0.1:24800"),
            screens: vec![screen("left", 0), screen("right", 99)],
            edge_behavior: EdgeBehavior::default(),
        },
    }
    .validate();
    assert!(matches!(result, Err(ConfigError::Topology(_))));
}

#[test]
fn saved_configuration_round_trips_through_validation() {
    let config = parsed(
        r#"
            [node]
            id = "left"

            [role]
            kind = "controller"
            listen = "0.0.0.0:24800"

            [[role.screens]]
            node = "left"
            x = 0
            y = 0
            width = 1920
            height = 1080
        "#,
    )
    .unwrap_or_else(|error| panic!("configuration should be valid: {error:?}"));

    let loaded = ConfigFile::from_config(&config)
        .validate()
        .unwrap_or_else(|error| panic!("saved configuration should load: {error:?}"));

    assert_eq!(loaded.node, config.node);
    assert!(matches!(
        loaded.role,
        Role::Controller { topology, .. } if topology.screens().len() == 1
    ));
}
