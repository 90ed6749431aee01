//! The fields of a configuration and the machines on the canvas.

use vstd::prelude::*;
use vstd::string::*;

use crate::config::{Config, ConfigError, EdgeBehavior, Role};
use crate::domain::arrangement::{ScreenPlacement, Topology, TopologyError};
use crate::domain::display::DesktopLayout;
use crate::domain::geometry::{Point, Size};
use crate::domain::identity::{NodeId, NodeIdError};
use crate::editor::screen::{
    default_layout, fitting_layout, parse_nonzero, DimensionError, ScreenEditor, ScreenError,
    DEFAULT_HEIGHT, DEFAULT_WIDTH,
};
use crate::platform::geometry::DesktopGeometry;
use crate::runtime::event::RuntimeRole;
use crate::text::{decimal_text, trim};

verus! {

pub const DEFAULT_LISTEN_ADDRESS: &'static str = "0.0.0.0:24800";

pub const DEFAULT_CONTROLLER_NODE: &'static str = "peer-node";

pub const DEFAULT_CONTROLLER_ADDRESS: &'static str = "127.0.0.1:24800";

pub const UNNAMED_NODE: &'static str = "local-node";

#[derive(Clone, Copy, Debug, PartialEq, Eq, Structural)]
pub enum ConfigRole {
    Controller,
    Agent,
}

impl ConfigRole {
    pub fn runtime_role(self) -> (role: RuntimeRole)
        ensures
            role == match self {
                ConfigRole::Controller => RuntimeRole::Controller,
                ConfigRole::Agent => RuntimeRole::Agent,
            },
    {
        match self {
            ConfigRole::Controller => RuntimeRole::Controller,
            ConfigRole::Agent => RuntimeRole::Agent,
        }
    }
}

/// The desktop of this node: where it begins, and its monitors.
#[derive(Debug)]
pub struct LocalDesktop {
    pub origin: Point,
    pub layout: DesktopLayout,
}

impl LocalDesktop {
    /// A desktop of which only the outline is known.
    pub fn from_geometry(geometry: DesktopGeometry) -> (desktop: LocalDesktop)
        ensures
            desktop.origin == geometry.origin,
            desktop.layout@ == crate::domain::display::LayoutView::whole(geometry.size),
    {
        LocalDesktop { origin: geometry.origin, layout: DesktopLayout::single(geometry.size) }
    }

    pub fn size(&self) -> (size: Size)
        ensures
            size == self.layout@.size,
    {
        self.layout.size()
    }

    pub fn monitor_count(&self) -> (count: usize)
        ensures
            count == self.layout@.monitors.len(),
    {
        self.layout.monitor_count()
    }
}

/// The fields of a configuration.
#[derive(Debug)]
pub struct ConfigEditor {
    pub role: ConfigRole,
    pub listen_address: String,
    pub controller_node: String,
    pub controller_address: String,
    pub agent_width: String,
    pub agent_height: String,
    pub agent_layout: DesktopLayout,
    pub edge_behavior: EdgeBehavior,
    pub screens: Vec<ScreenEditor>,
    pub selected_screen: usize,
}

pub ghost struct EditorView {
    pub role: ConfigRole,
    pub listen_address: Seq<char>,
    pub controller_node: Seq<char>,
    pub controller_address: Seq<char>,
    pub agent_width: Seq<char>,
    pub agent_height: Seq<char>,
    pub agent_layout: crate::domain::display::LayoutView,
    pub edge_behavior: EdgeBehavior,
    pub screens: Seq<crate::editor::screen::ScreenEditorView>,
    pub selected_screen: usize,
}

impl View for ConfigEditor {
    type V = EditorView;

    open spec fn view(&self) -> EditorView {
        EditorView {
            role: self.role,
            listen_address: self.listen_address@,
            controller_node: self.controller_node@,
            controller_address: self.controller_address@,
            agent_width: self.agent_width@,
            agent_height: self.agent_height@,
            agent_layout: self.agent_layout@,
            edge_behavior: self.edge_behavior,
            screens: crate::editor::screen::screen_views(self.screens@),
            selected_screen: self.selected_screen,
        }
    }
}

/// The fields of one machine.
pub open spec fn all_of(
    screen: crate::editor::screen::ScreenEditorView,
) -> Seq<crate::editor::screen::ScreenEditorView> {
    seq![screen]
}

/// The behavior of edges that nothing was set for.
pub open spec fn plain_behavior() -> EdgeBehavior {
    EdgeBehavior {
        switch_delay_ms: 0,
        corner_dead_zone_percent: 2,
        left: crate::config::EdgeRule::whole_edge(),
        right: crate::config::EdgeRule::whole_edge(),
        top: crate::config::EdgeRule::whole_edge(),
        bottom: crate::config::EdgeRule::whole_edge(),
    }
}

impl EditorView {
    /// The fields that are shown for a node without a configuration.
    pub open spec fn fresh(node: Seq<char>) -> EditorView {
        EditorView {
            role: ConfigRole::Controller,
            listen_address: DEFAULT_LISTEN_ADDRESS@,
            controller_node: DEFAULT_CONTROLLER_NODE@,
            controller_address: DEFAULT_CONTROLLER_ADDRESS@,
            agent_width: crate::text::decimal(DEFAULT_WIDTH as nat),
            agent_height: crate::text::decimal(DEFAULT_HEIGHT as nat),
            agent_layout: crate::domain::display::LayoutView::whole(
                crate::editor::screen::default_size(),
            ),
            edge_behavior: plain_behavior(),
            screens: all_of(crate::editor::screen::ScreenEditorView::unknown(node, 0, 0)),
            selected_screen: 0,
        }
    }

    /// The fields that a configuration is shown with.
    pub open spec fn of_config(config: crate::config::ConfigView) -> EditorView {
        match config.role {
            crate::config::RoleView::Controller { listen, screens, edge_behavior } => EditorView {
                listen_address: listen,
                edge_behavior,
                screens: screens.map_values(
                    |placement: crate::domain::arrangement::PlacementView|
                        crate::editor::screen::ScreenEditorView::of_placement(placement),
                ),
                ..EditorView::fresh(config.node)
            },
            crate::config::RoleView::Agent { controller_node, controller, layout } => EditorView {
                role: ConfigRole::Agent,
                controller_node,
                controller_address: controller,
                agent_width: crate::text::decimal(layout.size.width@ as nat),
                agent_height: crate::text::decimal(layout.size.height@ as nat),
                agent_layout: layout,
                ..EditorView::fresh(config.node)
            },
        }
    }

    /// `placements` are the machines that the fields describe.
    pub open spec fn places(
        self,
        placements: Seq<crate::domain::arrangement::PlacementView>,
    ) -> bool {
        &&& placements.len() == self.screens.len()
        &&& forall|i: int|
            0 <= i < placements.len() ==> self.screens[i].places(#[trigger] placements[i])
    }

    pub open spec fn controller_bytes(self) -> Seq<u8> {
        vstd::utf8::encode_utf8(crate::text::trimmed(self.controller_node))
    }

    pub open spec fn has_controller(self) -> bool {
        crate::domain::identity::is_node_id(self.controller_bytes())
    }

    /// The desktop of an agent has this size.
    pub open spec fn has_agent_size(self, size: Size) -> bool {
        &&& crate::editor::screen::dimension(self.agent_width) == Ok::<u32, DimensionError>(
            size.width@,
        )
        &&& crate::editor::screen::dimension(self.agent_height) == Ok::<u32, DimensionError>(
            size.height@,
        )
    }

    /// `role` is what the fields describe, with the address as it was read.
    pub open spec fn describes(
        self,
        address: Result<Seq<char>, Seq<char>>,
        role: crate::config::RoleView,
    ) -> bool {
        match (self.role, role) {
            (
                ConfigRole::Controller,
                crate::config::RoleView::Controller { listen, screens, edge_behavior },
            ) => {
                &&& address == Ok::<Seq<char>, Seq<char>>(listen)
                &&& self.places(screens)
                &&& crate::domain::arrangement::is_arrangement(screens)
                &&& edge_behavior == self.edge_behavior
            },
            (
                ConfigRole::Agent,
                crate::config::RoleView::Agent { controller_node, controller, layout },
            ) => {
                &&& self.has_controller()
                &&& controller_node == crate::text::trimmed(self.controller_node)
                &&& self.has_agent_size(layout.size)
                &&& layout == crate::editor::screen::layout_for(self.agent_layout, layout.size)
                &&& address == Ok::<Seq<char>, Seq<char>>(controller)
            },
            _ => false,
        }
    }
}

pub open spec fn text_of(text: Result<String, String>) -> Result<Seq<char>, Seq<char>> {
    match text {
        Ok(text) => Ok(text@),
        Err(text) => Err(text@),
    }
}

/// Why the fields are not a configuration.
#[derive(Debug)]
pub enum EditorError {
    /// The address at which a controller listens cannot be read.
    ListenAddress(String),
    /// The fields of the machine with this number, counted from 1, are refused.
    Machine { number: usize, error: ScreenError },
    Topology(TopologyError),
    ControllerNode(NodeIdError),
    AgentWidth(DimensionError),
    AgentHeight(DimensionError),
    /// The address of the controller cannot be read.
    ControllerAddress(String),
    Config(ConfigError),
}

impl EditorError {
    /// This is what the fields are refused with.
    pub open spec fn applies_to(
        self,
        editor: EditorView,
        node: Seq<char>,
        address: Result<Seq<char>, Seq<char>>,
    ) -> bool {
        match self {
            EditorError::ListenAddress(reason) => editor.role is Controller && address == Err::<
                Seq<char>,
                Seq<char>,
            >(reason@),
            EditorError::Machine { number, error } => {
                &&& editor.role is Controller
                &&& address is Ok
                &&& 1 <= number <= editor.screens.len()
                &&& error.applies_to(editor.screens[number - 1])
                &&& forall|i: int|
                    0 <= i < number - 1 ==> (#[trigger] editor.screens[i]).is_complete()
            },
            EditorError::Topology(error) => {
                &&& editor.role is Controller
                &&& address is Ok
                &&& exists|placements: Seq<crate::domain::arrangement::PlacementView>| #[trigger]
                    editor.places(placements) && error.applies_to(placements)
                        && !crate::domain::arrangement::is_arrangement(placements)
            },
            EditorError::ControllerNode(error) => editor.role is Agent && !editor.has_controller()
                && error.applies_to(editor.controller_bytes()),
            EditorError::AgentWidth(error) => editor.role is Agent && editor.has_controller()
                && crate::editor::screen::dimension(editor.agent_width) == Err::<
                u32,
                DimensionError,
            >(error),
            EditorError::AgentHeight(error) => editor.role is Agent && editor.has_controller()
                && crate::editor::screen::dimension(editor.agent_width) is Ok
                && crate::editor::screen::dimension(editor.agent_height) == Err::<
                u32,
                DimensionError,
            >(error),
            EditorError::ControllerAddress(reason) => editor.role is Agent
                && editor.has_controller() && crate::editor::screen::dimension(
                editor.agent_width,
            ) is Ok && crate::editor::screen::dimension(editor.agent_height) is Ok && address
                == Err::<Seq<char>, Seq<char>>(reason@),
            EditorError::Config(error) => exists|role: crate::config::RoleView|
                #![trigger editor.describes(address, role)]
                editor.describes(address, role) && crate::config::role_fault(
                    crate::config::ConfigView { node, role },
                ) == Some(error@),
        }
    }

    /// The error in words.
    pub open spec fn text(self) -> Seq<char> {
        match self {
            EditorError::ListenAddress(reason) => "Listen address: "@ + reason@,
            EditorError::Machine { number, error } => error.text(number as nat),
            EditorError::Topology(error) => error.text(),
            EditorError::ControllerNode(error) => "Controller node: "@ + error.text(),
            EditorError::AgentWidth(error) => error.text("Agent screen width"@),
            EditorError::AgentHeight(error) => error.text("Agent screen height"@),
            EditorError::ControllerAddress(reason) => "Controller address: "@ + reason@,
            EditorError::Config(error) => error.text(),
        }
    }

    /// The error in words.
    pub fn message(&self) -> (message: String)
        ensures
            message@ == self.text(),
    {
        let mut message = String::new();
        match self {
            EditorError::ListenAddress(reason) => {
                message.append("Listen address: ");
                message.append(reason.as_str());
            },
            EditorError::Machine { number, error } => {
                return error.message(*number as u64);
            },
            EditorError::Topology(error) => {
                return error.message();
            },
            EditorError::ControllerNode(error) => {
                message.append("Controller node: ");
                message.append(error.message().as_str());
            },
            EditorError::AgentWidth(error) => {
                message.append("Agent screen width");
                assert(message@ =~= "Agent screen width"@);
                error.complete(&mut message);
            },
            EditorError::AgentHeight(error) => {
                message.append("Agent screen height");
                assert(message@ =~= "Agent screen height"@);
                error.complete(&mut message);
            },
            EditorError::ControllerAddress(reason) => {
                message.append("Controller address: ");
                message.append(reason.as_str());
            },
            EditorError::Config(error) => {
                return error.message();
            },
        }
        assert(message@ =~= self.text());
        message
    }
}

impl ConfigEditor {
    /// The fields for a node without a configuration.
    pub fn for_node(node: Option<&NodeId>) -> (editor: ConfigEditor)
        ensures
            editor@ == EditorView::fresh(
                match node {
                    Some(node) => node@,
                    None => UNNAMED_NODE@,
                },
            ),
    {
        let name = match node {
            Some(node) => node.as_str().to_owned(),
            None => UNNAMED_NODE.to_owned(),
        };
        let mut screens: Vec<ScreenEditor> = Vec::new();
        screens.push(ScreenEditor::from_node(name, 0, 0));
        let editor = ConfigEditor {
            role: ConfigRole::Controller,
            listen_address: DEFAULT_LISTEN_ADDRESS.to_owned(),
            controller_node: DEFAULT_CONTROLLER_NODE.to_owned(),
            controller_address: DEFAULT_CONTROLLER_ADDRESS.to_owned(),
            agent_width: decimal_text(DEFAULT_WIDTH as u64),
            agent_height: decimal_text(DEFAULT_HEIGHT as u64),
            agent_layout: default_layout(),
            edge_behavior: EdgeBehavior::default(),
            screens,
            selected_screen: 0,
        };
        assert(editor@.screens =~= all_of(
            crate::editor::screen::ScreenEditorView::unknown(name@, 0, 0),
        ));
        editor
    }

    /// The fields of a configuration.
    pub fn from_config(config: &Config) -> (editor: ConfigEditor)
        ensures
            editor@ == EditorView::of_config(config@),
    {
        let mut editor = ConfigEditor::for_node(Some(&config.node));
        match &config.role {
            Role::Controller { listen, topology, edge_behavior } => {
                editor.listen_address = listen.clone();
                editor.edge_behavior = *edge_behavior;
                editor.screens = shown(topology);
            },
            Role::Agent { controller_node, controller, display_layout } => {
                let size = display_layout.size();
                editor.role = ConfigRole::Agent;
                editor.controller_node = controller_node.as_str().to_owned();
                editor.controller_address = controller.clone();
                editor.agent_width = decimal_text(size.width.get() as u64);
                editor.agent_height = decimal_text(size.height.get() as u64);
                editor.agent_layout = display_layout.clone();
            },
        }
        editor
    }

    /// The address that a configuration needs: where a controller listens, or
    /// where an agent finds its controller.
    pub fn address(&self) -> (address: &str)
        ensures
            address@ == match self.role {
                ConfigRole::Controller => crate::text::trimmed(self.listen_address@),
                ConfigRole::Agent => crate::text::trimmed(self.controller_address@),
            },
    {
        match self.role {
            ConfigRole::Controller => trim(self.listen_address.as_str()),
            ConfigRole::Agent => trim(self.controller_address.as_str()),
        }
    }

    /// The configuration that the fields describe. `address` is how
    /// [`ConfigEditor::address`] reads as a socket address, or why it does not.
    pub fn build(&self, node: NodeId, address: Result<String, String>) -> (result: Result<
        Config,
        EditorError,
    >)
        ensures
            match result {
                Ok(config) => config@.node == node@ && self@.describes(
                    text_of(address),
                    config@.role,
                ) && crate::config::role_fault(config@) is None,
                Err(error) => error.applies_to(self@, node@, text_of(address)),
            },
    {
        let ghost read = text_of(address);
        let role = match self.role {
            ConfigRole::Controller => {
                let listen = match address {
                    Ok(listen) => listen,
                    Err(reason) => {
                        return Err(EditorError::ListenAddress(reason));
                    },
                };
                let placements = match self.placements() {
                    Ok(placements) => placements,
                    Err((number, error)) => {
                        return Err(EditorError::Machine { number, error });
                    },
                };
                let ghost views = crate::domain::arrangement::placement_views(placements@);
                let topology = match Topology::new(placements) {
                    Ok(topology) => topology,
                    Err(error) => {
                        assert(self@.places(views));
                        return Err(EditorError::Topology(error));
                    },
                };
                Role::Controller { listen, topology, edge_behavior: self.edge_behavior }
            },
            ConfigRole::Agent => {
                let controller_node = match NodeId::new(trim(self.controller_node.as_str())) {
                    Ok(node) => node,
                    Err(error) => {
                        return Err(EditorError::ControllerNode(error));
                    },
                };
                let width = match parse_nonzero(self.agent_width.as_str()) {
                    Ok(width) => width,
                    Err(error) => {
                        return Err(EditorError::AgentWidth(error));
                    },
                };
                let height = match parse_nonzero(self.agent_height.as_str()) {
                    Ok(height) => height,
                    Err(error) => {
                        return Err(EditorError::AgentHeight(error));
                    },
                };
                let display_layout = fitting_layout(&self.agent_layout, Size::new(width, height));
                let controller = match address {
                    Ok(controller) => controller,
                    Err(reason) => {
                        return Err(EditorError::ControllerAddress(reason));
                    },
                };
                Role::Agent { controller_node, controller, display_layout }
            },
        };
        assert(self@.describes(read, role@));
        match Config::new(node, role) {
            Ok(config) => Ok(config),
            Err(error) => Err(EditorError::Config(error)),
        }
    }

    /// The machines that the fields describe, or the number of the first that is
    /// refused.
    fn placements(&self) -> (result: Result<Vec<ScreenPlacement>, (usize, ScreenError)>)
        ensures
            match result {
                Ok(placements) => self@.places(
                    crate::domain::arrangement::placement_views(placements@),
                ),
                Err((number, error)) => {
                    &&& 1 <= number <= self@.screens.len()
                    &&& error.applies_to(self@.screens[number - 1])
                    &&& forall|i: int|
                        0 <= i < number - 1 ==> (#[trigger] self@.screens[i]).is_complete()
                },
            },
    {
        let mut placements: Vec<ScreenPlacement> = Vec::new();
        let mut index: usize = 0;
        while index < self.screens.len()
            invariant
                index <= self.screens@.len(),
                placements@.len() == index,
                forall|i: int|
                    0 <= i < index ==> self@.screens[i].places((#[trigger] placements@[i])@),
            decreases self.screens@.len() - index,
        {
            assert(self@.screens[index as int] == self.screens@[index as int]@);
            match self.screens[index].build() {
                Ok(placement) => placements.push(placement),
                Err(error) => {
                    proof {
                        assert forall|i: int| 0 <= i < index implies (
                        #[trigger] self@.screens[i]).is_complete() by {
                            assert(self@.screens[i].places(placements@[i]@));
                        }
                    }
                    return Err((index + 1, error));
                },
            }
            index += 1;
        }
        Ok(placements)
    }
}

/// The fields of the machines of a topology.
fn shown(topology: &Topology) -> (screens: Vec<ScreenEditor>)
    ensures
        crate::editor::screen::screen_views(screens@) == topology@.map_values(
            |placement: crate::domain::arrangement::PlacementView|
                crate::editor::screen::ScreenEditorView::of_placement(placement),
        ),
{
    let placements = topology.screens();
    let mut screens: Vec<ScreenEditor> = Vec::new();
    let mut index: usize = 0;
    while index < placements.len()
        invariant
            index <= placements@.len(),
            topology@ == crate::domain::arrangement::placement_views(placements@),
            screens@.len() == index,
            forall|i: int|
                0 <= i < index ==> (#[trigger] screens@[i])@
                    == crate::editor::screen::ScreenEditorView::of_placement(topology@[i]),
        decreases placements@.len() - index,
    {
        assert(topology@[index as int] == placements@[index as int]@);
        screens.push(ScreenEditor::from_placement(&placements[index]));
        index += 1;
    }
    assert(crate::editor::screen::screen_views(screens@) =~= topology@.map_values(
        |placement: crate::domain::arrangement::PlacementView|
            crate::editor::screen::ScreenEditorView::of_placement(placement),
    ));
    screens
}

} // verus!
