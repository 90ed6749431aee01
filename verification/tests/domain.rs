use tevir::domain::arrangement;
use tevir::domain::display::{
    DesktopLayout, DesktopLayoutError, Monitor, MAX_MONITORS_PER_DESKTOP, MAX_MONITOR_NAME_BYTES,
};
use tevir::domain::geometry::{Point, Rect, Size};
use tevir::domain::identity::{NodeId, NodeIdError, MAX_NODE_ID_BYTES};
use tevir::domain::node_map::NodeMap;
use tevir::domain::nonzero::NonZeroU32;
use tevir::domain::topology::{
    Edge, GridSlot, ScreenPlacement, Topology, TopologyError, TOPOLOGY_COLUMNS,
};

fn size(width: u32, height: u32) -> Size {
    Size::new(
        NonZeroU32::new(width).unwrap_or(NonZeroU32::min_value()),
        NonZeroU32::new(height).unwrap_or(NonZeroU32::min_value()),
    )
}

fn node(value: &str) -> NodeId {
    NodeId::new(value).unwrap_or_else(|error| panic!("invalid test node: {error:?}"))
}

fn screen(node_id: &str, column: u8, row: u8, width: u32, height: u32) -> ScreenPlacement {
    ScreenPlacement {
        node: node(node_id),
        slot: GridSlot::new(column, row),
        size: size(width, height),
    }
}

#[test]
fn exposed_monitor_edges_follow_the_real_layout() {
    let layout = DesktopLayout::new(
        size(3840, 2160),
        vec![
            Monitor::new(
                Some(String::from("left")),
                Rect::new(Point { x: 0, y: 1080 }, size(1920, 1080)),
            ),
            Monitor::new(
                Some(String::from("top-right")),
                Rect::new(Point { x: 1920, y: 0 }, size(1920, 1080)),
            ),
        ],
    )
    .unwrap_or_else(|error| panic!("layout should be valid: {error:?}"));

    assert!(!layout.contains_edge_offset(Edge::Left, 100));
    assert!(layout.contains_edge_offset(Edge::Left, 1200));
    assert!(layout.contains_edge_offset(Edge::Top, 2000));
    assert!(!layout.contains(Point { x: 100, y: 100 }));
}

#[test]
fn rejects_monitors_outside_the_aggregate_desktop() {
    let result = DesktopLayout::new(
        size(1920, 1080),
        vec![Monitor::new(
            None,
            Rect::new(Point { x: 1, y: 0 }, size(1920, 1080)),
        )],
    );

    assert!(matches!(
        result,
        Err(DesktopLayoutError::MonitorOutsideDesktop { index: 0 })
    ));
}

#[test]
fn layouts_report_each_fault() {
    assert_eq!(
        DesktopLayout::new(size(10, 10), Vec::new()).err(),
        Some(DesktopLayoutError::Empty)
    );
    let many = (0..MAX_MONITORS_PER_DESKTOP + 1)
        .map(|_| Monitor::new(None, Rect::new(Point { x: 0, y: 0 }, size(10, 10))))
        .collect();
    assert_eq!(
        DesktopLayout::new(size(10, 10), many).err(),
        Some(DesktopLayoutError::TooManyMonitors {
            actual: 33,
            maximum: 32
        })
    );
    let named = Monitor::new(
        Some("x".repeat(MAX_MONITOR_NAME_BYTES + 1)),
        Rect::new(Point { x: 0, y: 0 }, size(10, 10)),
    );
    let error = DesktopLayout::new(size(10, 10), vec![named])
        .err()
        .unwrap_or_else(|| panic!("the name is too long"));
    assert_eq!(
        error,
        DesktopLayoutError::MonitorNameTooLong {
            index: 0,
            maximum: 128
        }
    );
    assert_eq!(error.message(), "monitor 0 name exceeds 128 bytes");
    let narrow = Monitor::new(None, Rect::new(Point { x: 0, y: 0 }, size(9, 10)));
    assert_eq!(
        DesktopLayout::new(size(10, 10), vec![narrow]).err(),
        Some(DesktopLayoutError::DoesNotSpanDesktop)
    );
}

#[test]
fn edge_segments_follow_the_monitors() {
    let layout = DesktopLayout::new(
        size(200, 200),
        vec![
            Monitor::new(None, Rect::new(Point { x: 0, y: 0 }, size(100, 80))),
            Monitor::new(None, Rect::new(Point { x: 0, y: 120 }, size(200, 80))),
            Monitor::new(None, Rect::new(Point { x: 100, y: 0 }, size(100, 50))),
        ],
    )
    .unwrap_or_else(|error| panic!("layout should be valid: {error:?}"));

    assert_eq!(layout.edge_segments(Edge::Left), vec![(0, 80), (120, 200)]);
    assert_eq!(layout.monitor_count(), 3);
}

#[test]
fn accepts_dns_label_style_ids() {
    let node = NodeId::new("workstation-2");

    assert_eq!(node.as_ref().map(NodeId::as_str), Ok("workstation-2"));
}

#[test]
fn rejects_uppercase_and_invalid_boundaries() {
    assert!(matches!(
        NodeId::new("-left"),
        Err(NodeIdError::InvalidBoundary)
    ));
    assert!(matches!(
        NodeId::new("Desk"),
        Err(NodeIdError::InvalidCharacter { index: 0, .. })
    ));
}

#[test]
fn node_errors_say_what_is_wrong() {
    assert_eq!(NodeId::new("").err(), Some(NodeIdError::Empty));
    assert_eq!(
        NodeId::new("").err().map(|error| error.message()),
        Some(String::from("node ID cannot be empty"))
    );
    let long = "a".repeat(MAX_NODE_ID_BYTES + 1);
    assert_eq!(
        NodeId::new(&long).err().map(|error| error.message()),
        Some(String::from("node ID is 64 bytes; the maximum is 63"))
    );
    assert!(NodeId::new(&"a".repeat(MAX_NODE_ID_BYTES)).is_ok());
    assert_eq!(
        NodeId::new("a_b").err().map(|error| error.message()),
        Some(String::from("node ID contains invalid byte 0x5f at index 1"))
    );
    assert_eq!(
        NodeId::new("left-").err().map(|error| error.message()),
        Some(String::from(
            "node ID must start and end with an ASCII letter or digit"
        ))
    );
}

#[test]
fn nodes_sort_by_their_bytes() {
    assert!(node("a").precedes(&node("b")));
    assert!(node("a").precedes(&node("a0")));
    assert!(node("a-b").precedes(&node("a0")));
    assert!(!node("b").precedes(&node("b")));
    assert!(!node("b").precedes(&node("a")));
}

#[test]
fn maps_edge_positions_proportionally_between_desktops() {
    let topology = Topology::new(vec![
        screen("left", 1, 2, 1920, 1080),
        screen("right", 2, 2, 2560, 1440),
    ])
    .unwrap_or_else(|error| panic!("topology should be valid: {error:?}"));

    let (left, right) = (node("left"), node("right"));
    let middle = topology
        .transition(&left, Edge::Right, 540)
        .unwrap_or_else(|| panic!("expected an adjacent screen"));
    let top = topology
        .transition(&left, Edge::Right, 0)
        .unwrap_or_else(|| panic!("expected an adjacent screen"));
    let bottom = topology
        .transition(&left, Edge::Right, 1079)
        .unwrap_or_else(|| panic!("expected an adjacent screen"));

    assert_eq!(middle.target, &right);
    assert_eq!(middle.local_position, Point { x: 0, y: 720 });
    assert_eq!(top.local_position, Point { x: 0, y: 0 });
    assert_eq!(bottom.local_position, Point { x: 0, y: 1439 });
}

#[test]
fn routes_in_each_grid_direction() {
    let topology = Topology::new(vec![
        screen("center", 2, 2, 1920, 1080),
        screen("left", 1, 2, 1920, 1080),
        screen("right", 3, 2, 1920, 1080),
        screen("top", 2, 1, 1920, 1080),
        screen("bottom", 2, 3, 1920, 1080),
    ])
    .unwrap_or_else(|error| panic!("topology should be valid: {error:?}"));

    assert_eq!(
        topology
            .transition(&node("center"), Edge::Left, 10)
            .map(|transition| transition.target),
        Some(&node("left"))
    );
    assert_eq!(
        topology
            .transition(&node("center"), Edge::Right, 10)
            .map(|transition| transition.target),
        Some(&node("right"))
    );
    assert_eq!(
        topology
            .transition(&node("center"), Edge::Top, 10)
            .map(|transition| transition.target),
        Some(&node("top"))
    );
    assert_eq!(
        topology
            .transition(&node("center"), Edge::Bottom, 10)
            .map(|transition| transition.target),
        Some(&node("bottom"))
    );
}

#[test]
fn rejects_duplicate_and_out_of_range_slots() {
    assert!(matches!(
        Topology::new(vec![
            screen("first", 2, 2, 1920, 1080),
            screen("second", 2, 2, 1920, 1080),
        ]),
        Err(TopologyError::OccupiedSlot(_))
    ));
    assert!(matches!(
        Topology::new(vec![screen("outside", TOPOLOGY_COLUMNS, 0, 1920, 1080)]),
        Err(TopologyError::SlotOutOfBounds { .. })
    ));
}

#[test]
fn rejects_disconnected_nodes() {
    assert!(matches!(
        Topology::new(vec![
            screen("center", 2, 2, 1920, 1080),
            screen("island", 4, 4, 1920, 1080),
        ]),
        Err(TopologyError::DisconnectedNode(node_id)) if node_id == node("island")
    ));
}

#[test]
fn grids_refuse_nothing_and_repeated_nodes() {
    assert!(matches!(
        Topology::new(Vec::new()),
        Err(TopologyError::Empty)
    ));
    assert!(matches!(
        Topology::new(vec![screen("a", 1, 1, 10, 10), screen("a", 1, 2, 10, 10)]),
        Err(TopologyError::DuplicateNode(twice)) if twice == node("a")
    ));
}

#[test]
fn grid_neighbors_are_mutual_and_stop_at_the_border() {
    let slot = GridSlot::new(2, 2);
    for edge in [Edge::Left, Edge::Right, Edge::Top, Edge::Bottom] {
        let beyond = slot
            .neighbor(edge)
            .unwrap_or_else(|| panic!("the slot lies inside"));
        assert_eq!(beyond.neighbor(edge.opposite()), Some(slot));
    }
    assert_eq!(GridSlot::new(0, 0).neighbor(Edge::Left), None);
    assert_eq!(GridSlot::new(0, 0).neighbor(Edge::Top), None);
}

fn placed(node_id: &str, x: i32, y: i32, width: u32, height: u32) -> arrangement::ScreenPlacement {
    arrangement::ScreenPlacement::single(
        node(node_id),
        Rect::new(Point { x, y }, size(width, height)),
    )
}

#[test]
fn arrangements_keep_the_pixel_row_that_is_crossed() {
    let topology = arrangement::Topology::new(vec![
        placed("left", -1920, 0, 1920, 1080),
        placed("right", 0, -180, 2560, 1440),
    ])
    .unwrap_or_else(|error| panic!("{}", error.message()));

    let (left, right) = (node("left"), node("right"));
    let there = topology
        .transition(&left, Edge::Right, 540)
        .unwrap_or_else(|| panic!("expected a touching screen"));
    assert_eq!(there.target, &right);
    assert_eq!(there.local_position, Point { x: 0, y: 720 });
    assert!(topology.transition(&right, Edge::Left, 100).is_none());
    let back = topology
        .transition(&right, Edge::Left, 720)
        .unwrap_or_else(|| panic!("expected a touching screen"));
    assert_eq!(back.target, &left);
    assert_eq!(back.local_position, Point { x: 1919, y: 540 });
}

#[test]
fn arrangements_report_each_fault() {
    let error = |screens| {
        arrangement::Topology::new(screens)
            .err()
            .map(|error| error.message())
    };
    assert_eq!(
        error(Vec::new()),
        Some(String::from("topology must contain at least one screen"))
    );
    assert_eq!(
        error(vec![placed("a", 0, 0, 10, 10), placed("a", 10, 0, 10, 10)]),
        Some(String::from(
            "node `a` appears more than once in the topology"
        ))
    );
    assert_eq!(
        error(vec![placed("a", 0, 0, 10, 10), placed("b", 9, 0, 10, 10)]),
        Some(String::from("screens for `a` and `b` overlap"))
    );
    assert_eq!(
        error(vec![placed("a", 0, 0, 10, 10), placed("b", 11, 0, 10, 10)]),
        Some(String::from(
            "screen for `b` is not adjacent to the connected topology"
        ))
    );
    assert_eq!(
        error(vec![placed("a", 0, 0, 10, 10), placed("b", 10, 0, 10, 10)]),
        None
    );
}

#[test]
fn corners_do_not_join_screens() {
    assert!(arrangement::Topology::new(vec![
        placed("a", 0, 0, 10, 10),
        placed("b", 10, 10, 10, 10)
    ])
    .is_err());
}

#[test]
fn node_maps_stay_in_order() {
    let mut map: NodeMap<u128> = NodeMap::new();
    assert!(map.is_empty());
    map.insert(node("b"), 2);
    map.insert(node("c"), 3);
    map.insert(node("a"), 1);
    map.insert(node("b"), 20);
    assert_eq!(map.len(), 3);
    assert_eq!(map.nodes(), vec![node("a"), node("b"), node("c")]);
    assert_eq!(map.get(&node("b")), Some(20));
    map.remove(&node("a"));
    map.remove(&node("z"));
    assert_eq!(map.nodes(), vec![node("b"), node("c")]);
    assert_eq!(map.get(&node("a")), None);
}
