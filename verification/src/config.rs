//! The configuration of a node.

use vstd::prelude::*;
use vstd::string::*;

use crate::domain::arrangement::{ScreenPlacement, Topology, TopologyError};
use crate::domain::display::DesktopLayout;
use crate::domain::geometry::{Point, Rect, Size};
use crate::domain::identity::NodeId;
use crate::domain::nonzero::NonZeroU32;
use crate::domain::topology::Edge;

verus! {

pub const MAX_SWITCH_DELAY_MS: u32 = 5_000;

pub const MAX_CORNER_DEAD_ZONE_PERCENT: u8 = 49;

/// The number of units that one percent of an edge is divided into.
pub const UNITS_PER_PERCENT: u64 = 0x100_0000_0000;

/// The number of units along a whole edge.
pub const EDGE_UNITS: u64 = 100 * 0x100_0000_0000;

/// A place along an edge, as a fraction of the edge's length.
#[derive(Clone, Copy, Debug, PartialEq, Eq, Structural)]
pub struct EdgePosition {
    units: u64,
}

impl View for EdgePosition {
    type V = int;

    closed spec fn view(&self) -> int {
        self.units as int
    }
}

impl EdgePosition {
    #[verifier::type_invariant]
    pub open spec fn is_on_edge(self) -> bool {
        0 <= self@ <= EDGE_UNITS
    }

    /// The place after so many units, no further than the end of the edge.
    pub fn from_units(units: u64) -> (position: EdgePosition)
        ensures
            position@ == if units <= EDGE_UNITS {
                units as int
            } else {
                EDGE_UNITS as int
            },
    {
        if units <= EDGE_UNITS {
            EdgePosition { units }
        } else {
            EdgePosition { units: EDGE_UNITS }
        }
    }

    /// The middle of an edge.
    pub fn middle() -> (position: EdgePosition)
        ensures
            position@ == EDGE_UNITS / 2,
    {
        EdgePosition { units: EDGE_UNITS / 2 }
    }

    /// The nearest of the pixels from 0 to `last`.
    pub open spec fn nearest_pixel(self, last: int) -> int {
        (2 * self@ * last + EDGE_UNITS) / (2 * EDGE_UNITS)
    }

    /// The nearest of the pixels from 0 to `last`.
    pub fn offset_within(self, last: u32) -> (offset: u32)
        ensures
            offset == self.nearest_pixel(last as int),
            offset <= last,
    {
        proof {
            use_type_invariant(&self);
        }
        let units: u128 = self.units as u128;
        proof {
            assert(0 <= 2 * units * last <= 2 * EDGE_UNITS * last) by (nonlinear_arith)
                requires
                    0 <= units <= EDGE_UNITS,
                    0 <= last,
            ;
            assert(2 * EDGE_UNITS * last + EDGE_UNITS < 2 * EDGE_UNITS * (last + 1))
                by (nonlinear_arith)
                requires
                    EDGE_UNITS > 0,
            ;
            assert(2 * EDGE_UNITS * last <= 2 * EDGE_UNITS * 0xffff_ffff) by (nonlinear_arith)
                requires
                    last <= 0xffff_ffff,
            ;
        }
        let scaled: u128 = 2 * units * last as u128 + EDGE_UNITS as u128;
        let divisor: u128 = 2 * EDGE_UNITS as u128;
        let offset: u128 = scaled / divisor;
        proof {
            assert(offset <= last) by (nonlinear_arith)
                requires
                    offset == scaled / divisor,
                    scaled < divisor * (last + 1),
                    divisor > 0,
            ;
        }
        offset as u32
    }
}

/// Where along an edge the pointer may cross it.
#[derive(Clone, Copy, Debug, PartialEq, Eq, Structural)]
pub struct EdgeRule {
    pub enabled: bool,
    pub active_start_percent: u8,
    pub active_end_percent: u8,
}

impl EdgeRule {
    /// The whole edge.
    pub open spec fn whole_edge() -> EdgeRule {
        EdgeRule { enabled: true, active_start_percent: 0, active_end_percent: 100 }
    }

    /// The range increases between 0% and 100%.
    pub open spec fn is_range(self) -> bool {
        self.active_start_percent < self.active_end_percent <= 100
    }

    fn has_range(self) -> (result: bool)
        ensures
            result == self.is_range(),
    {
        !(self.active_start_percent > 100 || self.active_end_percent > 100
            || self.active_start_percent >= self.active_end_percent)
    }
}

impl Default for EdgeRule {
    fn default() -> (rule: EdgeRule)
        ensures
            rule == EdgeRule::whole_edge(),
    {
        EdgeRule { enabled: true, active_start_percent: 0, active_end_percent: 100 }
    }
}

/// How and where the pointer crosses the edges of the local desktop.
#[derive(Clone, Copy, Debug, PartialEq, Eq, Structural)]
pub struct EdgeBehavior {
    pub switch_delay_ms: u32,
    pub corner_dead_zone_percent: u8,
    pub left: EdgeRule,
    pub right: EdgeRule,
    pub top: EdgeRule,
    pub bottom: EdgeRule,
}

impl EdgeBehavior {
    pub open spec fn rule_of(self, edge: Edge) -> EdgeRule {
        match edge {
            Edge::Left => self.left,
            Edge::Right => self.right,
            Edge::Top => self.top,
            Edge::Bottom => self.bottom,
        }
    }

    /// The part of an edge that may be crossed, in percent: what the rule of
    /// the edge allows outside the corners.
    pub open spec fn active_percent(self, edge: Edge) -> Option<(u8, u8)> {
        let rule = self.rule_of(edge);
        let start = if rule.active_start_percent >= self.corner_dead_zone_percent {
            rule.active_start_percent
        } else {
            self.corner_dead_zone_percent
        };
        let corner = if self.corner_dead_zone_percent <= 100 {
            (100 - self.corner_dead_zone_percent) as u8
        } else {
            0u8
        };
        let end = if rule.active_end_percent <= corner {
            rule.active_end_percent
        } else {
            corner
        };
        if rule.enabled && start < end {
            Some((start, end))
        } else {
            None
        }
    }

    /// The edge may be crossed at this place.
    pub open spec fn is_allowed(self, edge: Edge, position: int) -> bool {
        match self.active_percent(edge) {
            Some((start, end)) => start * UNITS_PER_PERCENT <= position <= end * UNITS_PER_PERCENT,
            None => false,
        }
    }

    /// Why the behavior is refused.
    pub open spec fn fault(self) -> Option<Seq<char>> {
        if self.switch_delay_ms > MAX_SWITCH_DELAY_MS {
            Some("switch delay must not exceed 5000 ms"@)
        } else if self.corner_dead_zone_percent > MAX_CORNER_DEAD_ZONE_PERCENT {
            Some("corner dead zone must not exceed 49%"@)
        } else if !self.left.is_range() {
            Some("left edge active range must increase between 0% and 100%"@)
        } else if !self.right.is_range() {
            Some("right edge active range must increase between 0% and 100%"@)
        } else if !self.top.is_range() {
            Some("top edge active range must increase between 0% and 100%"@)
        } else if !self.bottom.is_range() {
            Some("bottom edge active range must increase between 0% and 100%"@)
        } else {
            None
        }
    }

    pub fn rule(&self, edge: Edge) -> (rule: EdgeRule)
        ensures
            rule == self.rule_of(edge),
    {
        match edge {
            Edge::Left => self.left,
            Edge::Right => self.right,
            Edge::Top => self.top,
            Edge::Bottom => self.bottom,
        }
    }

    pub fn rule_mut(&mut self, edge: Edge) -> (rule: &mut EdgeRule)
        ensures
            *rule == old(self).rule_of(edge),
            final(self).rule_of(edge) == *final(rule),
            final(self).switch_delay_ms == old(self).switch_delay_ms,
            final(self).corner_dead_zone_percent == old(self).corner_dead_zone_percent,
            forall|other: Edge|
                other != edge ==> #[trigger] final(self).rule_of(other) == old(self).rule_of(other),
    {
        match edge {
            Edge::Left => &mut self.left,
            Edge::Right => &mut self.right,
            Edge::Top => &mut self.top,
            Edge::Bottom => &mut self.bottom,
        }
    }

    /// The part of an edge that may be crossed, in percent.
    pub fn active_interval(&self, edge: Edge) -> (interval: Option<(u8, u8)>)
        ensures
            interval == self.active_percent(edge),
    {
        let rule = self.rule(edge);
        if !rule.enabled {
            return None;
        }
        let start: u8 = if rule.active_start_percent >= self.corner_dead_zone_percent {
            rule.active_start_percent
        } else {
            self.corner_dead_zone_percent
        };
        let corner: u8 = if self.corner_dead_zone_percent <= 100 {
            100 - self.corner_dead_zone_percent
        } else {
            0
        };
        let end: u8 = if rule.active_end_percent <= corner {
            rule.active_end_percent
        } else {
            corner
        };
        if start < end {
            Some((start, end))
        } else {
            None
        }
    }

    /// Whether an edge may be crossed at this place.
    pub fn allows(&self, edge: Edge, position: EdgePosition) -> (result: bool)
        ensures
            result == self.is_allowed(edge, position@),
    {
        match self.active_interval(edge) {
            Some((start, end)) => position.units >= start as u64 * UNITS_PER_PERCENT
                && position.units <= end as u64 * UNITS_PER_PERCENT,
            None => false,
        }
    }

    /// Checks the limits of the behavior.
    pub fn validate(&self) -> (result: Result<(), ConfigError>)
        ensures
            match result {
                Ok(()) => self.fault() is None,
                Err(error) => self.fault() matches Some(reason) && error@
                    == ConfigFault::InvalidEdgeBehavior(reason),
            },
    {
        let reason = if self.switch_delay_ms > MAX_SWITCH_DELAY_MS {
            "switch delay must not exceed 5000 ms"
        } else if self.corner_dead_zone_percent > MAX_CORNER_DEAD_ZONE_PERCENT {
            "corner dead zone must not exceed 49%"
        } else if !self.left.has_range() {
            "left edge active range must increase between 0% and 100%"
        } else if !self.right.has_range() {
            "right edge active range must increase between 0% and 100%"
        } else if !self.top.has_range() {
            "top edge active range must increase between 0% and 100%"
        } else if !self.bottom.has_range() {
            "bottom edge active range must increase between 0% and 100%"
        } else {
            return Ok(());
        };
        Err(ConfigError::InvalidEdgeBehavior(reason.to_owned()))
    }
}

impl Default for EdgeBehavior {
    fn default() -> (behavior: EdgeBehavior)
        ensures
            behavior == (EdgeBehavior {
                switch_delay_ms: 0,
                corner_dead_zone_percent: 2,
                left: EdgeRule::whole_edge(),
                right: EdgeRule::whole_edge(),
                top: EdgeRule::whole_edge(),
                bottom: EdgeRule::whole_edge(),
            }),
    {
        EdgeBehavior {
            switch_delay_ms: 0,
            corner_dead_zone_percent: 2,
            left: EdgeRule::default(),
            right: EdgeRule::default(),
            top: EdgeRule::default(),
            bottom: EdgeRule::default(),
        }
    }
}

/// What a node does. Addresses are texts of socket addresses.
#[derive(Debug)]
pub enum Role {
    Controller { listen: String, topology: Topology, edge_behavior: EdgeBehavior },
    Agent { controller_node: NodeId, controller: String, display_layout: DesktopLayout },
}

pub ghost enum RoleView {
    Controller {
        listen: Seq<char>,
        screens: Seq<crate::domain::arrangement::PlacementView>,
        edge_behavior: EdgeBehavior,
    },
    Agent {
        controller_node: Seq<char>,
        controller: Seq<char>,
        layout: crate::domain::display::LayoutView,
    },
}

impl View for Role {
    type V = RoleView;

    open spec fn view(&self) -> RoleView {
        match self {
            Role::Controller { listen, topology, edge_behavior } => RoleView::Controller {
                listen: listen@,
                screens: topology@,
                edge_behavior: *edge_behavior,
            },
            Role::Agent { controller_node, controller, display_layout } => RoleView::Agent {
                controller_node: controller_node@,
                controller: controller@,
                layout: display_layout@,
            },
        }
    }
}

impl Clone for Role {
    fn clone(&self) -> (copy: Role)
        ensures
            copy@ == self@,
    {
        match self {
            Role::Controller { listen, topology, edge_behavior } => Role::Controller {
                listen: listen.clone(),
                topology: topology.clone(),
                edge_behavior: *edge_behavior,
            },
            Role::Agent { controller_node, controller, display_layout } => Role::Agent {
                controller_node: controller_node.clone(),
                controller: controller.clone(),
                display_layout: display_layout.clone(),
            },
        }
    }
}

/// The configuration of a node.
#[derive(Debug)]
pub struct Config {
    pub node: NodeId,
    pub role: Role,
}

pub ghost struct ConfigView {
    pub node: Seq<char>,
    pub role: RoleView,
}

impl View for Config {
    type V = ConfigView;

    open spec fn view(&self) -> ConfigView {
        ConfigView { node: self.node@, role: self.role@ }
    }
}

impl Clone for Config {
    fn clone(&self) -> (copy: Config)
        ensures
            copy@ == self@,
    {
        Config { node: self.node.clone(), role: self.role.clone() }
    }
}

/// Why a configuration is refused: a controller must have a desktop itself and
/// an acceptable behavior, an agent must have another node as its controller.
pub open spec fn role_fault(config: ConfigView) -> Option<ConfigFault> {
    match config.role {
        RoleView::Controller { listen, screens, edge_behavior } => {
            if crate::domain::arrangement::placement_of(screens, config.node) is None {
                Some(ConfigFault::MissingLocalScreen(config.node))
            } else {
                match edge_behavior.fault() {
                    Some(reason) => Some(ConfigFault::InvalidEdgeBehavior(reason)),
                    None => None,
                }
            }
        },
        RoleView::Agent { controller_node, controller, layout } => {
            if controller_node == config.node {
                Some(ConfigFault::LocalController(config.node))
            } else {
                None
            }
        },
    }
}

impl Config {
    /// Checks a configuration.
    pub fn new(node: NodeId, role: Role) -> (result: Result<Config, ConfigError>)
        ensures
            match result {
                Ok(config) => config@ == (ConfigView { node: node@, role: role@ }) && role_fault(
                    config@,
                ) is None,
                Err(error) => role_fault(ConfigView { node: node@, role: role@ }) == Some(error@),
            },
    {
        match &role {
            Role::Controller { listen: _, topology, edge_behavior } => {
                if topology.screen(&node).is_none() {
                    return Err(ConfigError::MissingLocalScreen(node));
                }
                if let Err(error) = edge_behavior.validate() {
                    return Err(error);
                }
            },
            Role::Agent { controller_node, controller: _, display_layout: _ } => {
                if *controller_node == node {
                    return Err(ConfigError::LocalController(node));
                }
            },
        }
        Ok(Config { node, role })
    }
}

/// A desktop as it is written down.
#[derive(Debug)]
pub struct ScreenFile {
    pub node: NodeId,
    pub x: i32,
    pub y: i32,
    pub width: NonZeroU32,
    pub height: NonZeroU32,
}

impl ScreenFile {
    pub open spec fn bounds(self) -> Rect {
        Rect {
            origin: Point { x: self.x, y: self.y },
            size: Size { width: self.width, height: self.height },
        }
    }

    /// The desktop that is meant: one of a single monitor.
    pub open spec fn placement(self) -> crate::domain::arrangement::PlacementView {
        crate::domain::arrangement::PlacementView {
            node: self.node@,
            bounds: self.bounds(),
            layout: crate::domain::display::LayoutView::whole(self.bounds().size),
        }
    }

    fn into_placement(&self) -> (screen: ScreenPlacement)
        ensures
            screen@ == self.placement(),
    {
        ScreenPlacement::single(
            self.node.clone(),
            Rect::new(Point { x: self.x, y: self.y }, Size::new(self.width, self.height)),
        )
    }

    fn from_placement(screen: &ScreenPlacement) -> (file: ScreenFile)
        ensures
            file.node@ == screen@.node,
            file.bounds() == screen@.bounds,
    {
        ScreenFile {
            node: screen.node.clone(),
            x: screen.bounds.origin.x,
            y: screen.bounds.origin.y,
            width: screen.bounds.size.width,
            height: screen.bounds.size.height,
        }
    }
}

/// A role as it is written down.
#[derive(Debug)]
pub enum RoleFile {
    Controller { listen: String, screens: Vec<ScreenFile>, edge_behavior: EdgeBehavior },
    Agent {
        controller_node: NodeId,
        controller: String,
        display_width: NonZeroU32,
        display_height: NonZeroU32,
    },
}

/// A configuration as it is written down.
#[derive(Debug)]
pub struct ConfigFile {
    pub node: NodeId,
    pub role: RoleFile,
}

/// The desktops that are meant.
pub open spec fn placements(screens: Seq<ScreenFile>) -> Seq<
    crate::domain::arrangement::PlacementView,
> {
    screens.map_values(|screen: ScreenFile| screen.placement())
}

impl ConfigFile {
    /// What is written down, whether it is acceptable or not.
    pub open spec fn meaning(self) -> ConfigView {
        ConfigView {
            node: self.node@,
            role: match self.role {
                RoleFile::Controller { listen, screens, edge_behavior } => RoleView::Controller {
                    listen: listen@,
                    screens: placements(screens@),
                    edge_behavior,
                },
                RoleFile::Agent { controller_node, controller, display_width, display_height } => {
                    RoleView::Agent {
                        controller_node: controller_node@,
                        controller: controller@,
                        layout: crate::domain::display::LayoutView::whole(
                            Size { width: display_width, height: display_height },
                        ),
                    }
                },
            },
        }
    }

    /// The desktops cannot be arranged as they are written down.
    pub open spec fn is_misarranged(self) -> bool {
        match self.role {
            RoleFile::Controller { listen, screens, edge_behavior } => {
                !crate::domain::arrangement::is_arrangement(placements(screens@))
            },
            _ => false,
        }
    }

    /// Accepts a configuration that was read.
    pub fn validate(self) -> (result: Result<Config, ConfigError>)
        ensures
            match result {
                Ok(config) => !self.is_misarranged() && config@ == self.meaning() && role_fault(
                    config@,
                ) is None,
                Err(error) => if self.is_misarranged() {
                    error matches ConfigError::Topology(reason) && reason.applies_to(
                        placements(self.role->screens@),
                    )
                } else {
                    role_fault(self.meaning()) == Some(error@)
                },
            },
    {
        let role = match self.role {
            RoleFile::Controller { listen, screens, edge_behavior } => {
                let arranged = arrange(&screens);
                let topology = match Topology::new(arranged) {
                    Ok(topology) => topology,
                    Err(error) => {
                        return Err(ConfigError::Topology(error));
                    },
                };
                Role::Controller { listen, topology, edge_behavior }
            },
            RoleFile::Agent { controller_node, controller, display_width, display_height } => {
                Role::Agent {
                    controller_node,
                    controller,
                    display_layout: DesktopLayout::single(
                        Size::new(display_width, display_height),
                    ),
                }
            },
        };
        Config::new(self.node, role)
    }

    /// A configuration as it is written down. Only the bounds of the desktops
    /// are kept.
    pub fn from_config(config: &Config) -> (file: ConfigFile)
        ensures
            file.node@ == config@.node,
            match (config@.role, file.role) {
                (
                    RoleView::Controller { listen, screens, edge_behavior },
                    RoleFile::Controller {
                        listen: written,
                        screens: files,
                        edge_behavior: behavior,
                    },
                ) => {
                    &&& written@ == listen
                    &&& behavior == edge_behavior
                    &&& files@.len() == screens.len()
                    &&& forall|i: int|
                        0 <= i < files@.len() ==> (#[trigger] files@[i]).node@ == screens[i].node
                            && files@[i].bounds() == screens[i].bounds
                },
                (
                    RoleView::Agent { controller_node, controller, layout },
                    RoleFile::Agent {
                        controller_node: node,
                        controller: address,
                        display_width,
                        display_height,
                    },
                ) => node@ == controller_node && address@ == controller && layout.size == (Size {
                    width: display_width,
                    height: display_height,
                }),
                _ => false,
            },
            is_written_in_full(config@) ==> file.meaning() == config@,
    {
        let role = match &config.role {
            Role::Controller { listen, topology, edge_behavior } => {
                let screens = write_screens(topology);
                let ghost views = topology@;
                proof {
                    if is_written_in_full(config@) {
                        assert(placements(screens@) =~= views) by {
                            assert forall|i: int| 0 <= i < views.len() implies placements(
                                screens@,
                            )[i] == #[trigger] views[i] by {
                                assert(screens@[i].bounds() == views[i].bounds);
                                assert(config@.role->screens == views);
                                assert(views[i].layout
                                    == crate::domain::display::LayoutView::whole(
                                    views[i].bounds.size,
                                ));
                                assert(screens@[i].placement() == views[i]);
                            }
                        }
                    }
                }
                RoleFile::Controller {
                    listen: listen.clone(),
                    screens,
                    edge_behavior: *edge_behavior,
                }
            },
            Role::Agent { controller_node, controller, display_layout } => RoleFile::Agent {
                controller_node: controller_node.clone(),
                controller: controller.clone(),
                display_width: display_layout.size().width,
                display_height: display_layout.size().height,
            },
        };
        ConfigFile { node: config.node.clone(), role }
    }
}

/// Every desktop has one monitor, so that its bounds say everything about it.
pub open spec fn is_written_in_full(config: ConfigView) -> bool {
    match config.role {
        RoleView::Controller { listen, screens, edge_behavior } => forall|i: int|
            0 <= i < screens.len() ==> (#[trigger] screens[i]).layout
                == crate::domain::display::LayoutView::whole(screens[i].bounds.size),
        RoleView::Agent { controller_node, controller, layout } => layout
            == crate::domain::display::LayoutView::whole(layout.size),
    }
}

fn arrange(screens: &Vec<ScreenFile>) -> (arranged: Vec<ScreenPlacement>)
    ensures
        crate::domain::arrangement::placement_views(arranged@) == placements(screens@),
{
    let mut arranged: Vec<ScreenPlacement> = Vec::new();
    let mut index: usize = 0;
    while index < screens.len()
        invariant
            index <= screens@.len(),
            arranged@.len() == index,
            forall|i: int|
                0 <= i < index ==> (#[trigger] arranged@[i])@ == screens@[i].placement(),
        decreases screens@.len() - index,
    {
        arranged.push(screens[index].into_placement());
        index += 1;
    }
    assert(crate::domain::arrangement::placement_views(arranged@) =~= placements(screens@));
    arranged
}

fn write_screens(topology: &Topology) -> (files: Vec<ScreenFile>)
    ensures
        files@.len() == topology@.len(),
        forall|i: int|
            0 <= i < files@.len() ==> (#[trigger] files@[i]).node@ == topology@[i].node
                && files@[i].bounds() == topology@[i].bounds,
{
    let screens = topology.screens();
    let mut files: Vec<ScreenFile> = Vec::new();
    let mut index: usize = 0;
    while index < screens.len()
        invariant
            index <= screens@.len(),
            crate::domain::arrangement::placement_views(screens@) == topology@,
            files@.len() == index,
            forall|i: int|
                0 <= i < index ==> (#[trigger] files@[i]).node@ == topology@[i].node
                    && files@[i].bounds() == topology@[i].bounds,
        decreases screens@.len() - index,
    {
        assert(topology@[index as int] == screens@[index as int]@);
        files.push(ScreenFile::from_placement(&screens[index]));
        index += 1;
    }
    files
}

/// Why a configuration is refused.
#[derive(Debug, PartialEq, Eq)]
pub enum ConfigError {
    Topology(TopologyError),
    MissingLocalScreen(NodeId),
    LocalController(NodeId),
    InvalidEdgeBehavior(String),
}

pub ghost enum ConfigFault {
    Topology,
    MissingLocalScreen(Seq<char>),
    LocalController(Seq<char>),
    InvalidEdgeBehavior(Seq<char>),
}

impl View for ConfigError {
    type V = ConfigFault;

    open spec fn view(&self) -> ConfigFault {
        match self {
            ConfigError::Topology(_) => ConfigFault::Topology,
            ConfigError::MissingLocalScreen(node) => ConfigFault::MissingLocalScreen(node@),
            ConfigError::LocalController(node) => ConfigFault::LocalController(node@),
            ConfigError::InvalidEdgeBehavior(reason) => ConfigFault::InvalidEdgeBehavior(reason@),
        }
    }
}

impl ConfigError {
    /// The error in words.
    pub open spec fn text(self) -> Seq<char> {
        match self {
            ConfigError::Topology(error) => error.text(),
            ConfigError::MissingLocalScreen(node) => "controller node `"@ + node@
                + "` is missing from `role.screens`"@,
            ConfigError::LocalController(node) => "agent node `"@ + node@
                + "` cannot use itself as its controller"@,
            ConfigError::InvalidEdgeBehavior(reason) => "edge behavior is invalid: "@ + reason@,
        }
    }

    /// The error in words.
    pub fn message(&self) -> (message: String)
        ensures
            message@ == self.text(),
    {
        let mut message = String::new();
        match self {
            ConfigError::Topology(error) => {
                return error.message();
            },
            ConfigError::MissingLocalScreen(node) => {
                message.append("controller node `");
                message.append(node.as_str());
                message.append("` is missing from `role.screens`");
            },
            ConfigError::LocalController(node) => {
                message.append("agent node `");
                message.append(node.as_str());
                message.append("` cannot use itself as its controller");
            },
            ConfigError::InvalidEdgeBehavior(reason) => {
                message.append("edge behavior is invalid: ");
                message.append(reason.as_str());
            },
        }
        assert(message@ =~= self.text());
        message
    }
}

/// A configuration that was accepted from a file is written down in full, so
/// that what is written is accepted as the same configuration again.
pub proof fn law_saved_configurations_are_accepted(file: ConfigFile, saved: ConfigFile)
    requires
        !file.is_misarranged(),
        role_fault(file.meaning()) is None,
        saved.meaning() == file.meaning(),
    ensures
        is_written_in_full(file.meaning()),
        !saved.is_misarranged(),
        role_fault(saved.meaning()) is None,
{
}

/// Nothing is crossed in the corners, nor on an edge that is switched off.
pub proof fn law_corners_are_dead(behavior: EdgeBehavior, edge: Edge, position: int)
    requires
        behavior.fault() is None,
    ensures
        behavior.is_allowed(edge, position) ==> {
            &&& behavior.rule_of(edge).enabled
            &&& behavior.corner_dead_zone_percent * UNITS_PER_PERCENT <= position
            &&& position <= (100 - behavior.corner_dead_zone_percent) * UNITS_PER_PERCENT
            &&& behavior.rule_of(edge).active_start_percent * UNITS_PER_PERCENT <= position
            &&& position <= behavior.rule_of(edge).active_end_percent * UNITS_PER_PERCENT
        },
{
}

/// An edge may be crossed exactly where it is switched on, at a place that its own
/// range holds and that lies outside both corners, and only if that leaves a part of
/// the edge. A percent is 2^40 units.
pub proof fn law_edges_are_crossed_in_their_range(
    behavior: EdgeBehavior,
    edge: Edge,
    position: int,
)
    requires
        behavior.corner_dead_zone_percent <= 49,
    ensures
        ({
            let rule = match edge {
                Edge::Left => behavior.left,
                Edge::Right => behavior.right,
                Edge::Top => behavior.top,
                Edge::Bottom => behavior.bottom,
            };
            let corner = behavior.corner_dead_zone_percent as int;
            let percent: int = 0x100_0000_0000;
            behavior.is_allowed(edge, position) <==> {
                &&& rule.enabled
                &&& rule.active_start_percent * percent <= position
                &&& position <= rule.active_end_percent * percent
                &&& corner * percent <= position
                &&& position <= (100 - corner) * percent
                &&& rule.active_start_percent < rule.active_end_percent
                &&& rule.active_start_percent < 100 - corner
                &&& corner < rule.active_end_percent
            }
        }),
{
}

/// A behavior is acceptable exactly where it waits for at most five seconds, keeps
/// less than half of an edge for each corner, and each edge has a range that
/// increases within the whole.
pub proof fn law_acceptable_behaviors(behavior: EdgeBehavior)
    ensures
        behavior.fault() is None <==> {
            &&& behavior.switch_delay_ms <= 5_000
            &&& behavior.corner_dead_zone_percent <= 49
            &&& behavior.left.active_start_percent < behavior.left.active_end_percent <= 100
            &&& behavior.right.active_start_percent < behavior.right.active_end_percent <= 100
            &&& behavior.top.active_start_percent < behavior.top.active_end_percent <= 100
            &&& behavior.bottom.active_start_percent < behavior.bottom.active_end_percent <= 100
        },
{
}

/// A place along an edge falls on the pixel that is nearest by its share of the
/// way, from the first to the last one.
pub proof fn law_places_fall_on_the_nearest_pixel(position: EdgePosition, last: int)
    requires
        0 <= position@ <= 0x6400_0000_0000,
        0 <= last,
    ensures
        ({
            let pixel = position.nearest_pixel(last);
            let whole: int = 0x6400_0000_0000;
            &&& 2 * (pixel * whole - position@ * last) <= whole
            &&& 2 * (position@ * last - pixel * whole) < whole
            &&& position@ == 0 ==> pixel == 0
            &&& position@ == whole ==> pixel == last
        }),
{
    let whole = EDGE_UNITS as int;
    let product = position@ * last;
    let scaled = 2 * position@ * last + whole;
    let pixel = position.nearest_pixel(last);
    assert(2 * position@ * last == 2 * product) by (nonlinear_arith)
        requires
            product == position@ * last,
    ;
    vstd::arithmetic::div_mod::lemma_fundamental_div_mod(scaled, 2 * whole);
    vstd::arithmetic::div_mod::lemma_mod_bound(scaled, 2 * whole);
    assert(scaled == (2 * whole) * pixel + scaled % (2 * whole));
    assert((2 * whole) * pixel == 2 * (pixel * whole)) by (nonlinear_arith);
    if position@ == 0 {
        assert(product == 0) by (nonlinear_arith)
            requires
                product == position@ * last,
                position@ == 0,
        ;
        assert(pixel == 0) by (nonlinear_arith)
            requires
                2 * (pixel * whole) <= whole,
                2 * (0 - pixel * whole) < whole,
                whole > 0,
        ;
    }
    if position@ == whole {
        assert(product == whole * last);
        assert(pixel == last) by (nonlinear_arith)
            requires
                2 * (pixel * whole - whole * last) <= whole,
                2 * (whole * last - pixel * whole) < whole,
                whole > 0,
        ;
    }
}

/// A controller is acceptable exactly where it has a desktop of its own and an
/// acceptable behavior; an agent where another node controls it.
pub proof fn law_acceptable_roles(config: ConfigView)
    ensures
        match config.role {
            RoleView::Controller { listen, screens, edge_behavior } => {
                &&& role_fault(config) is None <==> edge_behavior.fault() is None && exists|i: int|
                    0 <= i < screens.len() && (#[trigger] screens[i]).node == config.node
                &&& (forall|i: int|
                    0 <= i < screens.len() ==> (#[trigger] screens[i]).node != config.node)
                    ==> role_fault(config) == Some(ConfigFault::MissingLocalScreen(config.node))
            },
            RoleView::Agent { controller_node, controller, layout } => {
                &&& controller_node != config.node ==> role_fault(config) is None
                &&& controller_node == config.node ==> role_fault(config) == Some(
                    ConfigFault::LocalController(config.node),
                )
            },
        },
{
    if let RoleView::Controller { listen, screens, edge_behavior } = config.role {
        crate::domain::arrangement::lemma_placement_exists(screens, config.node);
    }
}

/// A file means what is written in it: each desktop of a controller in its place and
/// size, and the desktop of an agent in its size, each as one monitor.
pub proof fn law_files_mean_what_they_say(file: ConfigFile, index: int)
    ensures
        file.meaning().node == file.node@,
        match file.role {
            RoleFile::Controller { listen, screens, edge_behavior } => {
                file.meaning().role matches RoleView::Controller {
                    listen: address,
                    screens: placed,
                    edge_behavior: behavior,
                } && {
                    &&& address == listen@
                    &&& behavior == edge_behavior
                    &&& placed.len() == screens@.len()
                    &&& 0 <= index < placed.len() ==> {
                        let screen = placed[index];
                        let written = screens@[index];
                        &&& screen.node == written.node@
                        &&& screen.bounds.origin.x == written.x
                        &&& screen.bounds.origin.y == written.y
                        &&& screen.bounds.size.width == written.width
                        &&& screen.bounds.size.height == written.height
                        &&& screen.layout.size == screen.bounds.size
                        &&& screen.layout.monitors.len() == 1
                        &&& screen.layout.monitors[0].bounds.size == screen.bounds.size
                        &&& screen.layout.monitors[0].bounds.origin.x == 0
                        &&& screen.layout.monitors[0].bounds.origin.y == 0
                    }
                }
            },
            RoleFile::Agent { controller_node, controller, display_width, display_height } => {
                file.meaning().role matches RoleView::Agent {
                    controller_node: node,
                    controller: address,
                    layout,
                } && {
                    &&& node == controller_node@
                    &&& address == controller@
                    &&& layout.size.width == display_width
                    &&& layout.size.height == display_height
                    &&& layout.monitors.len() == 1
                    &&& layout.monitors[0].bounds.size == layout.size
                }
            },
        },
{
}

} // verus!
