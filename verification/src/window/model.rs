//! The state behind the window, and what follows from what happens.

use vstd::prelude::*;
use vstd::string::*;

use crate::config::{Config, Role};
use crate::domain::geometry::Point;
use crate::domain::identity::NodeId;
use crate::editor::config_editor::{ConfigEditor, LocalDesktop};
use crate::runtime::event::{runtime_role, RuntimeEvent, RuntimeRole};
use crate::window::decisions::{
    adopt_controller, can_apply_live, ownership_error, restarts_after_pairing,
};
use crate::window::labels::config_summary;
use crate::window::notice::{session_notice, Notice};
use crate::window::status::{SessionState, Tone};

verus! {

/// The state behind the window.
#[derive(Debug)]
pub struct DesktopModel {
    /// This node, once it has an identity.
    pub local_node: Option<NodeId>,
    /// Whether the trusted nodes are known.
    pub has_trust: bool,
    /// Whether native input can be had here.
    pub available: bool,
    pub editor: ConfigEditor,
    pub saved_config: Option<Config>,
    /// The configuration that a session is started with once the window shows.
    pub startup_config: Option<Config>,
    pub config_summary: Option<String>,
    pub session_running: bool,
    pub session_state: SessionState,
    pub local_desktop: Option<LocalDesktop>,
    pub notice: Option<Notice>,
}

pub ghost struct ModelView {
    pub local_node: Option<Seq<char>>,
    pub has_trust: bool,
    pub available: bool,
    pub editor: crate::editor::config_editor::EditorView,
    pub saved_config: Option<crate::config::ConfigView>,
    pub startup_config: Option<crate::config::ConfigView>,
    pub config_summary: Option<Seq<char>>,
    pub session_running: bool,
    pub session_state: crate::window::status::StatusView,
    /// Where the desktop of this node begins.
    pub local_origin: Option<Point>,
    /// The monitors of this node.
    pub local_layout: Option<crate::domain::display::LayoutView>,
    pub notice: Option<crate::window::notice::NoticeView>,
}

pub open spec fn optional_config(config: Option<Config>) -> Option<crate::config::ConfigView> {
    match config {
        Some(config) => Some(config@),
        None => None,
    }
}

impl View for DesktopModel {
    type V = ModelView;

    open spec fn view(&self) -> ModelView {
        ModelView {
            local_node: crate::window::status::optional_node(self.local_node),
            has_trust: self.has_trust,
            available: self.available,
            editor: self.editor@,
            saved_config: optional_config(self.saved_config),
            startup_config: optional_config(self.startup_config),
            config_summary: crate::domain::display::optional_text(self.config_summary),
            session_running: self.session_running,
            session_state: self.session_state@,
            local_origin: match self.local_desktop {
                Some(desktop) => Some(desktop.origin),
                None => None,
            },
            local_layout: match self.local_desktop {
                Some(desktop) => Some(desktop.layout@),
                None => None,
            },
            notice: crate::window::notice::optional_notice(self.notice),
        }
    }
}

pub open spec fn failure(message: Seq<char>) -> Option<crate::window::notice::NoticeView> {
    Some(crate::window::notice::NoticeView { message, tone: Tone::Danger })
}

pub open spec fn success(message: Seq<char>) -> Option<crate::window::notice::NoticeView> {
    Some(crate::window::notice::NoticeView { message, tone: Tone::Success })
}

pub open spec fn information(message: Seq<char>) -> Option<crate::window::notice::NoticeView> {
    Some(crate::window::notice::NoticeView { message, tone: Tone::Accent })
}

/// The address that a configuration holds.
pub fn configured_address(config: &Config) -> (address: String)
    ensures
        address@ == crate::editor::laws::address_of(config@.role),
{
    match &config.role {
        Role::Controller { listen, topology: _, edge_behavior: _ } => listen.clone(),
        Role::Agent { controller_node: _, controller, display_layout: _ } => controller.clone(),
    }
}

/// The desktop of this node in the fields of a configuration, where it has a
/// place in them.
pub open spec fn with_desktop(
    editor: crate::editor::config_editor::EditorView,
    node: Seq<char>,
    layout: crate::domain::display::LayoutView,
) -> crate::editor::config_editor::EditorView {
    match editor.role {
        crate::editor::config_editor::ConfigRole::Controller => {
            match crate::editor::machines::first_named(editor.screens, node, 0) {
                Some(index) => crate::editor::config_editor::EditorView {
                    screens: crate::editor::machines::with_local_desktop(
                        editor.screens,
                        index,
                        layout,
                    ),
                    selected_screen: index as usize,
                    ..editor
                },
                None => editor,
            }
        },
        crate::editor::config_editor::ConfigRole::Agent => {
            crate::editor::config_editor::EditorView {
                agent_width: crate::text::decimal(layout.size.width@ as nat),
                agent_height: crate::text::decimal(layout.size.height@ as nat),
                agent_layout: layout,
                ..editor
            }
        },
    }
}

impl ModelView {
    /// The session is over.
    pub open spec fn stopped(self) -> ModelView {
        ModelView {
            session_running: false,
            session_state: crate::window::status::StatusView::idle(),
            ..self
        }
    }

    /// Why no session can start, if none can.
    pub open spec fn start_fault(self) -> Option<Seq<char>> {
        if !self.available {
            Some("Native desktop input prerequisites are unavailable"@)
        } else if self.local_node is None {
            Some("Local identity is not ready"@)
        } else if !self.has_trust {
            Some("Trust store is not ready"@)
        } else {
            None
        }
    }

    /// The configuration is the saved one.
    pub open spec fn holding(self, config: crate::config::ConfigView) -> ModelView {
        ModelView {
            saved_config: Some(config),
            config_summary: Some(crate::window::labels::summary_text(config)),
            ..self
        }
    }

    /// The desktop of this node as it is now, in the fields too.
    pub open spec fn on_desktop(
        self,
        origin: Point,
        layout: crate::domain::display::LayoutView,
    ) -> ModelView {
        ModelView {
            local_origin: Some(origin),
            local_layout: Some(layout),
            editor: match self.local_node {
                Some(node) => with_desktop(self.editor, node, layout),
                None => self.editor,
            },
            ..self
        }
    }

    /// What is shown once something happened in the session.
    pub open spec fn after_event(self, event: crate::runtime::event::EventView) -> ModelView {
        let noticed = match crate::window::notice::notice_of(event, self.session_state) {
            Some(notice) => Some(notice),
            None => self.notice,
        };
        let seen = match event {
            crate::runtime::event::EventView::LocalDesktopChanged { geometry } => {
                self.on_desktop(
                    geometry.origin,
                    crate::domain::display::LayoutView::whole(geometry.size),
                )
            },
            crate::runtime::event::EventView::DisplayChanged { screen, monitor_count } => ModelView {
                editor: updated_editor(self.editor, screen),
                ..self
            },
            _ => self,
        };
        ModelView { notice: noticed, session_state: self.session_state.after(event), ..seen }
    }
}

/// The fields with a machine where it is placed now.
pub open spec fn updated_editor(
    editor: crate::editor::config_editor::EditorView,
    screen: crate::domain::arrangement::PlacementView,
) -> crate::editor::config_editor::EditorView {
    match crate::editor::machines::first_named(editor.screens, screen.node, 0) {
        Some(index) => crate::editor::config_editor::EditorView {
            screens: editor.screens.update(
                index,
                crate::editor::screen::ScreenEditorView {
                    node: editor.screens[index].node,
                    ..crate::editor::screen::ScreenEditorView::of_placement(screen)
                },
            ),
            selected_screen: index as usize,
            ..editor
        },
        None => editor,
    }
}

impl DesktopModel {
    /// The state of a window that just opened.
    pub fn new(local_node: Option<NodeId>, has_trust: bool, available: bool) -> (model:
        DesktopModel)
        ensures
            model@ == (ModelView {
                local_node: crate::window::status::optional_node(local_node),
                has_trust,
                available,
                editor: crate::editor::config_editor::EditorView::fresh(
                    match local_node {
                        Some(node) => node@,
                        None => crate::editor::config_editor::UNNAMED_NODE@,
                    },
                ),
                saved_config: None,
                startup_config: None,
                config_summary: None,
                session_running: false,
                session_state: crate::window::status::StatusView::idle(),
                local_origin: None,
                local_layout: None,
                notice: None,
            }),
    {
        let editor = ConfigEditor::for_node(local_node.as_ref());
        DesktopModel {
            local_node,
            has_trust,
            available,
            editor,
            saved_config: None,
            startup_config: None,
            config_summary: None,
            session_running: false,
            session_state: SessionState::default(),
            local_desktop: None,
            notice: None,
        }
    }

    /// Tells what went wrong.
    pub fn fail(&mut self, message: String)
        ensures
            final(self)@ == (ModelView { notice: failure(message@), ..old(self)@ }),
    {
        self.notice = Some(Notice::error(message));
    }

    /// This node has an identity now.
    pub fn identity_ready(&mut self, node: NodeId)
        ensures
            final(self)@ == (ModelView {
                local_node: Some(node@),
                has_trust: true,
                editor: crate::editor::config_editor::EditorView::fresh(node@),
                saved_config: None,
                notice: success("Local identity ready"@),
                ..old(self)@.stopped()
            }),
    {
        self.editor = ConfigEditor::for_node(Some(&node));
        self.local_node = Some(node);
        self.has_trust = true;
        self.stop_session();
        self.saved_config = None;
        self.notice = Some(Notice::success("Local identity ready".to_owned()));
    }

    /// The session is over.
    pub fn stop_session(&mut self)
        ensures
            final(self)@ == old(self)@.stopped(),
    {
        self.session_running = false;
        self.session_state.stop();
    }

    /// Whether a session can be started, after the one that may run.
    pub fn begin_session(&mut self) -> (ready: bool)
        ensures
            ready == (old(self)@.start_fault() is None),
            final(self)@ == (ModelView {
                notice: match old(self)@.start_fault() {
                    Some(message) => failure(message),
                    None => old(self)@.notice,
                },
                ..old(self)@.stopped()
            }),
    {
        self.stop_session();
        let message = if !self.available {
            "Native desktop input prerequisites are unavailable"
        } else if self.local_node.is_none() {
            "Local identity is not ready"
        } else if !self.has_trust {
            "Trust store is not ready"
        } else {
            return true;
        };
        self.fail(message.to_owned());
        false
    }

    /// A session was started.
    pub fn session_started(&mut self)
        ensures
            final(self)@ == (ModelView {
                session_running: true,
                session_state: crate::window::status::StatusView::idle(),
                notice: information("Session starting"@),
                ..old(self)@
            }),
    {
        self.session_state = SessionState::default();
        self.session_running = true;
        self.notice = Some(Notice::info("Session starting".to_owned()));
    }

    /// A session could not be started.
    pub fn session_refused(&mut self, message: String)
        ensures
            final(self)@ == (ModelView {
                session_state: old(self)@.session_state.with_error(message@),
                notice: failure(message@),
                ..old(self)@
            }),
    {
        self.session_state.record_error(message.clone());
        self.fail(message);
    }

    /// The desktop of this node as it is now.
    pub fn desktop_seen(&mut self, desktop: LocalDesktop)
        ensures
            final(self)@ == old(self)@.on_desktop(desktop.origin, desktop.layout@),
    {
        if let Some(node) = &self.local_node {
            let shown = LocalDesktop { origin: desktop.origin, layout: desktop.layout.clone() };
            let _ = self.editor.apply_local_desktop(node, shown);
        }
        self.local_desktop = Some(desktop);
    }

    /// Something happened in the session. Returns whether it is over.
    pub fn session_event(&mut self, event: RuntimeEvent) -> (stopped: bool)
        ensures
            stopped == (event is Stopped),
            final(self)@ == old(self)@.after_event(event@),
    {
        let notice = session_notice(&event, &self.session_state);
        let stopped = matches!(event, RuntimeEvent::Stopped);
        match &event {
            RuntimeEvent::LocalDesktopChanged { geometry } => {
                self.desktop_seen(LocalDesktop::from_geometry(*geometry));
            },
            RuntimeEvent::DisplayChanged { screen, monitor_count: _ } => {
                self.editor.update_screen(screen);
            },
            _ => {},
        }
        if notice.is_some() {
            self.notice = notice;
        }
        self.session_state.apply(event);
        stopped
    }

    /// Takes over a configuration that was read. Returns the one to start a
    /// session with, if one is to start now.
    pub fn config_loaded(&mut self, config: Config, start_session: bool) -> (starting: Option<
        Config,
    >)
        ensures
            ({
                let before = old(self)@;
                let after = final(self)@;
                match before.local_node {
                    None => starting is None && after == (ModelView {
                        notice: failure("Local identity is not ready"@),
                        ..before
                    }),
                    Some(node) => if config@.node != node {
                        starting is None && after == (ModelView {
                            notice: failure(
                                "Configuration belongs to `"@ + config@.node + "`, not `"@ + node
                                    + "`"@,
                            ),
                            ..before
                        })
                    } else {
                        exists|loaded: crate::config::ConfigView|
                            {
                                &&& #[trigger] is_loaded(before, config@, loaded)
                                &&& after == (ModelView {
                                    editor: loaded_editor(before, config@),
                                    notice: success("Configuration loaded"@),
                                    startup_config: if start_session {
                                        before.startup_config
                                    } else {
                                        Some(loaded)
                                    },
                                    ..before.holding(loaded)
                                })
                                &&& optional_config(starting) == if start_session {
                                    Some(loaded)
                                } else {
                                    None
                                }
                            }
                    },
                }
            }),
    {
        let node = match &self.local_node {
            Some(node) => node.clone(),
            None => {
                self.fail("Local identity is not ready".to_owned());
                return None;
            },
        };
        if let Some(message) = ownership_error(&config, &node) {
            self.fail(message);
            return None;
        }
        let ghost before = self@;
        self.editor = ConfigEditor::from_config(&config);
        let mut loaded = config.clone();
        if let Some(desktop) = &self.local_desktop {
            let shown = LocalDesktop { origin: desktop.origin, layout: desktop.layout.clone() };
            let _ = self.editor.apply_local_desktop(&node, shown);
            let address: Result<String, String> = Ok(configured_address(&config));
            let ghost read = crate::editor::config_editor::text_of(address);
            match self.editor.build(node, address) {
                Ok(updated) => {
                    assert(is_described(self@.editor, node@, read, updated@));
                    loaded = updated;
                },
                Err(error) => {
                    proof {
                        lemma_refused_fields(error, self@.editor, node@, read);
                    }
                },
            }
        }
        assert(self@.editor == loaded_editor(before, config@));
        assert(is_loaded(before, config@, loaded@));
        self.hold(&loaded);
        self.notice = Some(Notice::success("Configuration loaded".to_owned()));
        if start_session {
            Some(loaded)
        } else {
            self.startup_config = Some(loaded);
            None
        }
    }

    /// No configuration could be read.
    pub fn config_missing(&mut self, message: String)
        ensures
            final(self)@ == (ModelView {
                config_summary: None,
                saved_config: None,
                notice: failure(message@),
                ..old(self)@
            }),
    {
        self.config_summary = None;
        self.saved_config = None;
        self.fail(message);
    }

    fn hold(&mut self, config: &Config)
        ensures
            final(self)@ == old(self)@.holding(config@),
    {
        self.config_summary = Some(config_summary(config));
        self.saved_config = Some(config.clone());
    }

    /// The configuration that the session waits for, with the desktop that became
    /// known meanwhile. `address` is how the address in the fields reads.
    pub fn take_deferred(&mut self, address: Result<String, String>) -> (starting: Option<Config>)
        ensures
            ({
                let before = old(self)@;
                let after = final(self)@;
                let taken = ModelView { startup_config: None, ..before };
                match before.startup_config {
                    None => starting is None && after == before,
                    Some(config) => starting is Some && if before.local_layout is Some
                        && before.local_node is Some && describes_any(
                        before.editor,
                        before.local_node->0,
                        crate::editor::config_editor::text_of(address),
                    ) {
                        &&& is_described(
                            before.editor,
                            before.local_node->0,
                            crate::editor::config_editor::text_of(address),
                            starting->0@,
                        )
                        &&& after == taken.holding(starting->0@)
                    } else {
                        starting->0@ == config && after == taken
                    },
                }
            }),
    {
        let mut startup: Option<Config> = None;
        std::mem::swap(&mut self.startup_config, &mut startup);
        let config = match startup {
            Some(config) => config,
            None => {
                return None;
            },
        };
        if self.local_desktop.is_some() {
            if let Some(node) = &self.local_node {
                let ghost read = crate::editor::config_editor::text_of(address);
                match self.editor.build(node.clone(), address) {
                    Ok(updated) => {
                        assert(is_described(self@.editor, node@, read, updated@));
                        self.hold(&updated);
                        return Some(updated);
                    },
                    Err(error) => {
                        proof {
                            lemma_refused_fields(error, self@.editor, node@, read);
                        }
                    },
                }
            }
        }
        Some(config)
    }

    /// The configuration to save, and whether the running session can go on with
    /// it. `address` is how the address in the fields reads.
    pub fn config_to_save(&mut self, address: Result<String, String>, has_path: bool) -> (saving:
        Option<(Config, bool)>)
        ensures
            ({
                let before = old(self)@;
                let after = final(self)@;
                let read = crate::editor::config_editor::text_of(address);
                match before.local_node {
                    None => saving is None && after == (ModelView {
                        notice: failure("Local identity is not ready"@),
                        ..before
                    }),
                    Some(node) => match saving {
                        Some((config, live)) => {
                            &&& has_path
                            &&& is_described(before.editor, node, read, config@)
                            &&& live == (before.session_running && before.session_state.role
                                == Some(RuntimeRole::Controller) && match before.saved_config {
                                Some(previous) => crate::window::decisions::is_same_controller(
                                    previous,
                                    config@,
                                ),
                                None => false,
                            })
                            &&& after == before
                        },
                        None => {
                            ||| describes_any(before.editor, node, read) && !has_path && after == (
                            ModelView {
                                notice: failure("Configuration path is required"@),
                                ..before
                            })
                            ||| exists|error: crate::editor::config_editor::EditorError| #[trigger]
                                error.applies_to(before.editor, node, read) && after == (ModelView {
                                    notice: failure(error.text()),
                                    ..before
                                })
                        },
                    },
                }
            }),
    {
        let node = match &self.local_node {
            Some(node) => node.clone(),
            None => {
                self.fail("Local identity is not ready".to_owned());
                return None;
            },
        };
        let config = match self.editor.build(node, address) {
            Ok(config) => config,
            Err(error) => {
                self.fail(error.message());
                return None;
            },
        };
        assert(is_described(
            self@.editor,
            node@,
            crate::editor::config_editor::text_of(address),
            config@,
        ));
        if !has_path {
            self.fail("Configuration path is required".to_owned());
            return None;
        }
        let live = can_apply_live(
            self.session_running,
            self.session_state.role,
            self.saved_config.as_ref(),
            &config,
        );
        Some((config, live))
    }

    /// A configuration was saved. `applied` tells whether the running session goes
    /// on with it; if not, a session is to be started with it.
    pub fn config_saved(&mut self, config: &Config, applied: bool)
        ensures
            final(self)@ == (ModelView {
                notice: success(
                    if applied {
                        "Configuration saved and applying"@
                    } else {
                        "Configuration saved"@
                    },
                ),
                ..old(self)@.holding(config@)
            }),
    {
        self.hold(config);
        self.notice = Some(
            Notice::success(
                if applied {
                    "Configuration saved and applying".to_owned()
                } else {
                    "Configuration saved".to_owned()
                },
            ),
        );
    }

    /// A node was paired. Returns the configuration to start a session with, if
    /// one ran or failed.
    pub fn node_paired(&mut self, node: &NodeId) -> (starting: Option<Config>)
        ensures
            ({
                let before = old(self)@;
                let adopted = before.editor.role is Agent && before.editor.controller_node
                    == crate::editor::config_editor::DEFAULT_CONTROLLER_NODE@;
                &&& final(self)@ == (ModelView {
                    editor: crate::editor::config_editor::EditorView {
                        controller_node: if adopted {
                            node@
                        } else {
                            before.editor.controller_node
                        },
                        ..before.editor
                    },
                    notice: success("Paired with "@ + node@),
                    ..before
                })
                &&& optional_config(starting) == if before.session_running
                    || before.session_state.phase is Failed {
                    before.saved_config
                } else {
                    None
                }
            }),
    {
        let _ = adopt_controller(&mut self.editor, node);
        let mut message = "Paired with ".to_owned();
        message.append(node.as_str());
        self.notice = Some(Notice::success(message));
        if restarts_after_pairing(self.session_running, &self.session_state) {
            match &self.saved_config {
                Some(config) => Some(config.clone()),
                None => None,
            }
        } else {
            None
        }
    }

    /// A node was asked to be removed from the trusted ones.
    pub fn node_removed(&mut self, node: &NodeId, removed: bool)
        ensures
            final(self)@ == if removed {
                ModelView { notice: success("Removed "@ + node@), ..old(self)@.stopped() }
            } else {
                ModelView { notice: failure(node@ + " is not paired"@), ..old(self)@ }
            },
    {
        if removed {
            self.stop_session();
            let mut message = "Removed ".to_owned();
            message.append(node.as_str());
            self.notice = Some(Notice::success(message));
        } else {
            let mut message = node.as_str().to_owned();
            message.append(" is not paired");
            self.fail(message);
        }
    }

    /// The configuration to start a session with once native input is there
    /// again.
    pub fn config_for(&self, role: RuntimeRole) -> (config: Option<Config>)
        ensures
            optional_config(config) == match self@.saved_config {
                Some(config) => if runs_as(config, role) {
                    Some(config)
                } else {
                    None
                },
                None => None,
            },
    {
        match &self.saved_config {
            Some(config) => if runtime_role(&config.role) == role {
                Some(config.clone())
            } else {
                None
            },
            None => None,
        }
    }
}

/// The configuration is one for this role.
pub open spec fn runs_as(config: crate::config::ConfigView, role: RuntimeRole) -> bool {
    match role {
        RuntimeRole::Controller => config.role is Controller,
        RuntimeRole::Agent => config.role is Agent,
    }
}

/// The fields of a configuration that was read, with the desktop of this node.
pub open spec fn loaded_editor(
    model: ModelView,
    config: crate::config::ConfigView,
) -> crate::editor::config_editor::EditorView {
    let editor = crate::editor::config_editor::EditorView::of_config(config);
    match (model.local_node, model.local_layout) {
        (Some(node), Some(layout)) => with_desktop(editor, node, layout),
        _ => editor,
    }
}

/// `config` is what the fields describe.
pub open spec fn is_described(
    editor: crate::editor::config_editor::EditorView,
    node: Seq<char>,
    address: Result<Seq<char>, Seq<char>>,
    config: crate::config::ConfigView,
) -> bool {
    &&& config.node == node
    &&& editor.describes(address, config.role)
    &&& crate::config::role_fault(config) is None
}

/// The fields describe a configuration.
pub open spec fn describes_any(
    editor: crate::editor::config_editor::EditorView,
    node: Seq<char>,
    address: Result<Seq<char>, Seq<char>>,
) -> bool {
    exists|config: crate::config::ConfigView| is_described(editor, node, address, config)
}

/// `loaded` is a configuration that was read, with the desktop of this node where
/// that is known and fits.
pub open spec fn is_loaded(
    model: ModelView,
    config: crate::config::ConfigView,
    loaded: crate::config::ConfigView,
) -> bool {
    let address = Ok::<Seq<char>, Seq<char>>(crate::editor::laws::address_of(config.role));
    let editor = loaded_editor(model, config);
    if model.local_layout is Some && describes_any(editor, config.node, address) {
        is_described(editor, config.node, address, loaded)
    } else {
        loaded == config
    }
}

proof fn lemma_refused_fields(
    error: crate::editor::config_editor::EditorError,
    editor: crate::editor::config_editor::EditorView,
    node: Seq<char>,
    address: Result<Seq<char>, Seq<char>>,
)
    requires
        error.applies_to(editor, node, address),
    ensures
        !describes_any(editor, node, address),
{
    if describes_any(editor, node, address) {
        let config = choose|config: crate::config::ConfigView|
            is_described(editor, node, address, config);
        crate::editor::laws::law_refused_fields_describe_nothing(
            error,
            editor,
            node,
            address,
            config.role,
        );
        assert(config == crate::config::ConfigView { node, role: config.role });
    }
}

} // verus!
