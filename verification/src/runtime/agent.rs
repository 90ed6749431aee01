//! The session of an agent: input to inject, its own desktop and the clipboard.

use vstd::prelude::*;
use vstd::string::*;

use crate::domain::geometry::Point;
use crate::domain::identity::NodeId;
use crate::domain::input::InputEvent;
use crate::domain::nonzero::NonZeroU32;
use crate::platform::clipboard::ClipboardServiceEvent;
use crate::platform::geometry::DesktopGeometry;
use crate::protocol::clipboard::{ClipboardControl, ClipboardText};
use crate::protocol::message::Session;
use crate::runtime::applications::ClipboardApplications;
use crate::runtime::event::{node_text, RuntimeError, RuntimeEvent};
use crate::session::agent::{AgentAction, AgentSession};
use crate::session::clipboard::{ClipboardAction, ClipboardSession, ClipboardSessionError};
use crate::time::Duration;
use crate::transport::config::ReconnectPolicy;

verus! {

/// What is to be done, in the order of the list that it stands in.
#[derive(Debug)]
pub enum AgentEffect {
    /// A message goes to the controller.
    Send(Session),
    /// A clipboard text goes to the controller.
    Transfer(ClipboardText),
    WarpCursor(Point),
    Inject { sequence: u64, events: Vec<InputEvent> },
    ReleaseInput,
    CloseConnection,
    ApplyClipboard { text: String },
    Tell(RuntimeEvent),
}

pub ghost enum AgentEffectView {
    Send(crate::protocol::message::SessionView),
    Transfer(crate::protocol::clipboard::TextView),
    WarpCursor(Point),
    Inject { sequence: u64, events: Seq<InputEvent> },
    ReleaseInput,
    CloseConnection,
    ApplyClipboard { text: Seq<char> },
    Tell(crate::runtime::event::EventView),
}

impl View for AgentEffect {
    type V = AgentEffectView;

    open spec fn view(&self) -> AgentEffectView {
        match self {
            AgentEffect::Send(message) => AgentEffectView::Send(message@),
            AgentEffect::Transfer(transfer) => AgentEffectView::Transfer(transfer@),
            AgentEffect::WarpCursor(position) => AgentEffectView::WarpCursor(*position),
            AgentEffect::Inject { sequence, events } => AgentEffectView::Inject {
                sequence: *sequence,
                events: events@,
            },
            AgentEffect::ReleaseInput => AgentEffectView::ReleaseInput,
            AgentEffect::CloseConnection => AgentEffectView::CloseConnection,
            AgentEffect::ApplyClipboard { text } => AgentEffectView::ApplyClipboard {
                text: text@,
            },
            AgentEffect::Tell(event) => AgentEffectView::Tell(event@),
        }
    }
}

pub open spec fn effect_views(effects: Seq<AgentEffect>) -> Seq<AgentEffectView> {
    effects.map_values(|effect: AgentEffect| effect@)
}

/// The session of an agent over one connection.
#[derive(Debug)]
pub struct AgentConnection {
    controller_node: NodeId,
    session_id: u128,
    generation: u64,
    agent: AgentSession,
    clipboard: Option<ClipboardSession>,
    applications: ClipboardApplications,
    clipboard_available: bool,
    geometry: DesktopGeometry,
    controlled: bool,
    application_pending: bool,
}

pub ghost struct AgentRuntimeView {
    pub controller_node: Seq<char>,
    pub session_id: u128,
    /// The injection session that belongs to the connection.
    pub generation: u64,
    pub agent: crate::session::agent::AgentView,
    pub clipboard: Option<crate::session::clipboard::ClipboardView>,
    pub applications: crate::runtime::applications::ApplicationsView,
    pub clipboard_available: bool,
    pub geometry: DesktopGeometry,
    /// Whether it was told that the controller has this desktop.
    pub controlled: bool,
    /// Whether input is being injected, so that messages wait.
    pub application_pending: bool,
}

pub open spec fn session_view(session: Option<ClipboardSession>) -> Option<
    crate::session::clipboard::ClipboardView,
> {
    match session {
        Some(session) => Some(session@),
        None => None,
    }
}

impl View for AgentConnection {
    type V = AgentRuntimeView;

    closed spec fn view(&self) -> AgentRuntimeView {
        AgentRuntimeView {
            controller_node: self.controller_node@,
            session_id: self.session_id,
            generation: self.generation,
            agent: self.agent@,
            clipboard: session_view(self.clipboard),
            applications: self.applications@,
            clipboard_available: self.clipboard_available,
            geometry: self.geometry,
            controlled: self.controlled,
            application_pending: self.application_pending,
        }
    }
}

/// What comes of an event: what is done, and the state after it, or why the
/// session ends.
pub ghost struct AgentRuntimeStep {
    pub state: AgentRuntimeView,
    pub outcome: Result<Seq<AgentEffectView>, crate::runtime::event::RuntimeFault>,
}

pub open spec fn done(state: AgentRuntimeView, effects: Seq<AgentEffectView>) -> AgentRuntimeStep {
    AgentRuntimeStep { state, outcome: Ok(effects) }
}

pub open spec fn ended(
    state: AgentRuntimeView,
    fault: crate::runtime::event::RuntimeFault,
) -> AgentRuntimeStep {
    AgentRuntimeStep { state, outcome: Err(fault) }
}

/// A step followed by more that is done.
pub open spec fn followed(
    first: AgentRuntimeStep,
    more: Seq<AgentEffectView>,
) -> AgentRuntimeStep {
    match first.outcome {
        Err(fault) => first,
        Ok(effects) => done(first.state, effects + more),
    }
}

/// `result` and `after` are what a step says. The state of a session that ends
/// does not matter any more.
pub open spec fn is_step(
    step: AgentRuntimeStep,
    result: Result<Vec<AgentEffect>, RuntimeError>,
    after: AgentRuntimeView,
) -> bool {
    match (step.outcome, result) {
        (Ok(effects), Ok(done)) => effect_views(done@) == effects && after == step.state,
        (Err(fault), Err(error)) => error@ == fault,
        _ => false,
    }
}

/// The message that reports a desktop.
pub open spec fn display_report(geometry: DesktopGeometry) -> AgentEffectView {
    AgentEffectView::Send(
        crate::protocol::message::SessionView::DisplayChanged {
            size: geometry.size,
            monitor_count: if geometry.monitor_count == 0 {
                1
            } else {
                geometry.monitor_count
            },
        },
    )
}

pub open spec fn desktop_told(geometry: DesktopGeometry) -> AgentEffectView {
    AgentEffectView::Tell(crate::runtime::event::EventView::LocalDesktopChanged { geometry })
}

pub open spec fn control_told(controller: Seq<char>, active: bool) -> AgentEffectView {
    AgentEffectView::Tell(crate::runtime::event::EventView::AgentControl { controller, active })
}

pub open spec fn synchronization_told(peer: Seq<char>, received: bool) -> AgentEffectView {
    AgentEffectView::Tell(
        crate::runtime::event::EventView::ClipboardSynchronized { peer, received },
    )
}

pub open spec fn error_told(message: Seq<char>) -> AgentEffectView {
    AgentEffectView::Tell(crate::runtime::event::EventView::Error { message })
}

/// What is done for the actions of the agent session.
pub open spec fn agent_effects(actions: Seq<crate::session::agent::ActionView>) -> Seq<
    AgentEffectView,
>
    decreases actions.len(),
{
    if actions.len() == 0 {
        Seq::empty()
    } else {
        let earlier = agent_effects(actions.drop_last());
        match actions.last() {
            crate::session::agent::ActionView::FocusEntered { position } => earlier.push(
                AgentEffectView::WarpCursor(position),
            ),
            crate::session::agent::ActionView::ApplyInput(batch) => earlier.push(
                AgentEffectView::Inject { sequence: batch.sequence, events: batch.events },
            ),
            crate::session::agent::ActionView::ReleaseAllInput => earlier.push(
                AgentEffectView::ReleaseInput,
            ),
            crate::session::agent::ActionView::Send(message) => earlier.push(
                AgentEffectView::Send(message),
            ),
            crate::session::agent::ActionView::Clipboard(_) => earlier,
            crate::session::agent::ActionView::CloseConnection => earlier.push(
                AgentEffectView::CloseConnection,
            ),
        }
    }
}

/// One of the actions injects input.
pub open spec fn injects(actions: Seq<crate::session::agent::ActionView>) -> bool {
    exists|i: int|
        0 <= i < actions.len()
            && #[trigger] actions[i] is ApplyInput
}

/// A message of the controller other than a clipboard message. What follows it
/// waits while input is injected, and a change of control is told.
pub open spec fn input_message_step(
    state: AgentRuntimeView,
    message: crate::protocol::message::SessionView,
) -> AgentRuntimeStep {
    let step = crate::session::agent::message_step(state.agent, message);
    match step.outcome {
        Err(error) => ended(state, crate::runtime::event::RuntimeFault::Agent(error)),
        Ok(actions) => {
            let controlled = step.state.active_epoch is Some;
            done(
                AgentRuntimeView {
                    agent: step.state,
                    application_pending: injects(actions),
                    controlled,
                    ..state
                },
                agent_effects(actions) + if controlled != state.controlled {
                    seq![control_told(state.controller_node, controlled)]
                } else {
                    Seq::empty()
                },
            )
        },
    }
}

/// What is done for the actions of the clipboard session.
pub open spec fn clipboard_effects(
    actions: Seq<crate::session::clipboard::ActionView>,
) -> Seq<AgentEffectView>
    decreases actions.len(),
{
    if actions.len() == 0 {
        Seq::empty()
    } else {
        let earlier = clipboard_effects(actions.drop_last());
        match actions.last() {
            crate::session::clipboard::ActionView::SendControl(control) => earlier.push(
                AgentEffectView::Send(
                    crate::protocol::message::SessionView::Clipboard(control),
                ),
            ),
            crate::session::clipboard::ActionView::SendTransfer(transfer) => earlier.push(
                AgentEffectView::Transfer(transfer),
            ),
            crate::session::clipboard::ActionView::ApplyRemote(transfer) => earlier,
        }
    }
}

/// The texts that wait for the native clipboard after the actions of the
/// clipboard session, each for its owner.
pub open spec fn queued_after(
    applications: crate::runtime::applications::ApplicationsView,
    actions: Seq<crate::session::clipboard::ActionView>,
) -> crate::runtime::applications::ApplicationsView
    decreases actions.len(),
{
    if actions.len() == 0 {
        applications
    } else {
        let earlier = queued_after(applications, actions.drop_last());
        match actions.last() {
            crate::session::clipboard::ActionView::ApplyRemote(transfer) => earlier.with(
                transfer.generation.owner,
                transfer,
            ),
            _ => earlier,
        }
    }
}

/// The next waiting text goes to the native clipboard.
pub open spec fn application_step(state: AgentRuntimeView) -> AgentRuntimeStep {
    if !state.applications.is_waiting() {
        done(state, Seq::empty())
    } else if !state.clipboard_available {
        ended(
            state,
            crate::runtime::event::RuntimeFault::Native(
                "native clipboard service is unavailable"@,
            ),
        )
    } else {
        done(
            AgentRuntimeView { applications: state.applications.started(), ..state },
            seq![AgentEffectView::ApplyClipboard { text: state.applications.queued[0].1.text }],
        )
    }
}

/// What comes of a step of the clipboard session.
pub open spec fn session_step(
    state: AgentRuntimeView,
    step: crate::session::clipboard::ClipboardStep,
) -> AgentRuntimeStep {
    match step.outcome {
        Err(error) => ended(state, crate::runtime::event::RuntimeFault::Clipboard(error)),
        Ok(actions) => {
            let next = application_step(
                AgentRuntimeView {
                    clipboard: Some(step.state),
                    applications: queued_after(state.applications, actions),
                    ..state
                },
            );
            match next.outcome {
                Err(fault) => next,
                Ok(more) => done(next.state, clipboard_effects(actions) + more),
            }
        },
    }
}

/// A clipboard message of the controller.
pub open spec fn control_step(
    state: AgentRuntimeView,
    control: crate::protocol::clipboard::ControlView,
) -> AgentRuntimeStep {
    match state.clipboard {
        None => ended(
            state,
            crate::runtime::event::RuntimeFault::Session(
                "controller sent clipboard control without negotiating it"@,
            ),
        ),
        Some(session) => followed(
            session_step(state, crate::session::clipboard::control_step(session, control)),
            if control is Applied {
                seq![synchronization_told(state.controller_node, false)]
            } else {
                Seq::empty()
            },
        ),
    }
}

/// A message of the controller.
pub open spec fn message_step(
    state: AgentRuntimeView,
    message: crate::protocol::message::SessionView,
) -> AgentRuntimeStep {
    match message {
        crate::protocol::message::SessionView::Clipboard(control) => control_step(state, control),
        _ => input_message_step(state, message),
    }
}

/// The desktop of this node changed: what was focused on it is released, and the
/// controller hears of the new desktop.
pub open spec fn desktop_step(
    state: AgentRuntimeView,
    geometry: DesktopGeometry,
) -> AgentRuntimeStep {
    if geometry == state.geometry {
        done(state, Seq::empty())
    } else {
        let step = crate::session::agent::display_step(state.agent, geometry.size);
        done(
            AgentRuntimeView {
                geometry,
                agent: step.state,
                application_pending: false,
                controlled: false,
                ..state
            },
            agent_effects(step.outcome->Ok_0) + seq![display_report(geometry)] + (
            if state.controlled {
                seq![control_told(state.controller_node, false)]
            } else {
                Seq::empty()
            }) + seq![desktop_told(geometry)],
        )
    }
}

/// A batch was injected. Other injection sessions are not meant.
pub open spec fn injected_step(
    state: AgentRuntimeView,
    generation: u64,
    sequence: u64,
) -> AgentRuntimeStep {
    if generation != state.generation {
        done(state, Seq::empty())
    } else {
        let step = crate::session::agent::confirmation_step(state.agent, sequence);
        match step.outcome {
            Err(error) => ended(state, crate::runtime::event::RuntimeFault::Agent(error)),
            Ok(actions) => done(
                AgentRuntimeView { agent: step.state, application_pending: false, ..state },
                agent_effects(actions),
            ),
        }
    }
}

/// A clipboard text of the controller. Other sessions are not meant.
pub open spec fn transfer_step(
    state: AgentRuntimeView,
    peer: Seq<char>,
    session_id: u128,
    transfer: crate::protocol::clipboard::TextView,
) -> AgentRuntimeStep {
    if peer != state.controller_node || session_id != state.session_id {
        done(state, Seq::empty())
    } else {
        match state.clipboard {
            None => ended(
                state,
                crate::runtime::event::RuntimeFault::Session(
                    "controller sent clipboard data without negotiating it"@,
                ),
            ),
            Some(session) => session_step(
                state,
                crate::session::clipboard::transfer_step(session, transfer),
            ),
        }
    }
}

/// The clipboard stream failed. Other sessions are not meant.
pub open spec fn stream_failure_step(
    state: AgentRuntimeView,
    peer: Seq<char>,
    session_id: u128,
    reason: Seq<char>,
) -> AgentRuntimeStep {
    if peer != state.controller_node || session_id != state.session_id {
        done(state, Seq::empty())
    } else {
        done(
            AgentRuntimeView { clipboard: None, ..state },
            seq![
                error_told("Clipboard synchronization with `"@ + peer + "` stopped: "@ + reason),
            ],
        )
    }
}

/// The native clipboard took the text that it was handed.
pub open spec fn confirmation_step(state: AgentRuntimeView) -> AgentRuntimeStep {
    match state.applications.pending {
        None => ended(
            state,
            crate::runtime::event::RuntimeFault::Session(
                "native clipboard applied without a pending generation"@,
            ),
        ),
        Some((peer, generation)) => if peer != state.controller_node {
            ended(
                state,
                crate::runtime::event::RuntimeFault::Session(
                    "native clipboard application belongs to unexpected peer `"@ + peer + "`"@,
                ),
            )
        } else {
            let taken = AgentRuntimeView {
                applications: crate::runtime::applications::ApplicationsView {
                    pending: None,
                    ..state.applications
                },
                ..state
            };
            match state.clipboard {
                None => done(taken, Seq::empty()),
                Some(session) => followed(
                    session_step(
                        taken,
                        crate::session::clipboard::confirmation_step(session, generation),
                    ),
                    seq![synchronization_told(peer, true)],
                ),
            }
        },
    }
}

/// An event of the native clipboard.
pub open spec fn native_clipboard_step(
    state: AgentRuntimeView,
    event: crate::runtime::controller::ClipboardEventView,
) -> AgentRuntimeStep {
    let without = AgentRuntimeView {
        clipboard: None,
        applications: crate::runtime::applications::ApplicationsView::none(),
        ..state
    };
    match event {
        crate::runtime::controller::ClipboardEventView::Ready { backend } => done(
            state,
            seq![
                AgentEffectView::Tell(
                    crate::runtime::event::EventView::ClipboardReady { backend },
                ),
            ],
        ),
        crate::runtime::controller::ClipboardEventView::Changed { text } => match state.clipboard {
            None => done(state, Seq::empty()),
            Some(session) => session_step(
                state,
                crate::session::clipboard::local_step(session, text),
            ),
        },
        crate::runtime::controller::ClipboardEventView::Applied => confirmation_step(state),
        crate::runtime::controller::ClipboardEventView::Failed { reason } => done(
            without,
            seq![error_told("Clipboard synchronization stopped: "@ + reason)],
        ),
        crate::runtime::controller::ClipboardEventView::Stopped => done(without, Seq::empty()),
    }
}

fn no_effects() -> (effects: Vec<AgentEffect>)
    ensures
        effect_views(effects@) == Seq::<AgentEffectView>::empty(),
{
    let effects: Vec<AgentEffect> = Vec::new();
    assert(effect_views(effects@) =~= Seq::<AgentEffectView>::empty());
    effects
}

fn emit(effects: &mut Vec<AgentEffect>, effect: AgentEffect)
    ensures
        effect_views(final(effects)@) == effect_views(old(effects)@).push(effect@),
{
    let ghost before = effect_views(effects@);
    effects.push(effect);
    assert(effect_views(effects@) =~= before.push(effect@));
}

fn report(geometry: DesktopGeometry) -> (effect: AgentEffect)
    ensures
        effect@ == display_report(geometry),
{
    let monitor_count = match NonZeroU32::new(geometry.monitor_count) {
        Some(count) => count,
        None => NonZeroU32::min_value(),
    };
    AgentEffect::Send(Session::DisplayChanged { size: geometry.size, monitor_count })
}

fn copy_events(events: &Vec<InputEvent>) -> (copy: Vec<InputEvent>)
    ensures
        copy@ == events@,
{
    let mut copy: Vec<InputEvent> = Vec::new();
    let mut index: usize = 0;
    while index < events.len()
        invariant
            index <= events@.len(),
            copy@ == events@.take(index as int),
        decreases events@.len() - index,
    {
        copy.push(events[index]);
        assert(copy@ =~= events@.take(index + 1));
        index += 1;
    }
    assert(copy@ =~= events@);
    copy
}

/// Carries out the actions of the agent session. Returns whether one of them
/// injects input.
fn carry_out(actions: Vec<AgentAction>, effects: &mut Vec<AgentEffect>) -> (injecting: bool)
    ensures
        effect_views(final(effects)@) == effect_views(old(effects)@) + agent_effects(
            crate::session::agent::action_views(actions@),
        ),
        injecting == injects(crate::session::agent::action_views(actions@)),
{
    let ghost before = effect_views(effects@);
    let ghost views = crate::session::agent::action_views(actions@);
    let mut injecting = false;
    let mut index: usize = 0;
    proof {
        assert(views.take(0) =~= Seq::<crate::session::agent::ActionView>::empty());
        assert(before + agent_effects(views.take(0)) =~= before);
    }
    while index < actions.len()
        invariant
            index <= actions@.len(),
            views == crate::session::agent::action_views(actions@),
            effect_views(effects@) == before + agent_effects(views.take(index as int)),
            injecting == exists|i: int| 0 <= i < index && #[trigger] views[i] is ApplyInput,
        decreases actions@.len() - index,
    {
        proof {
            let longer = views.take(index + 1);
            assert(longer.drop_last() =~= views.take(index as int));
            assert(longer.last() == actions@[index as int]@);
            assert(views[index as int] == actions@[index as int]@);
        }
        let ghost earlier = injecting;
        match &actions[index] {
            AgentAction::FocusEntered { position } => emit(
                effects,
                AgentEffect::WarpCursor(*position),
            ),
            AgentAction::ApplyInput(batch) => {
                injecting = true;
                emit(
                    effects,
                    AgentEffect::Inject {
                        sequence: batch.sequence,
                        events: copy_events(&batch.events),
                    },
                );
            },
            AgentAction::ReleaseAllInput => emit(effects, AgentEffect::ReleaseInput),
            AgentAction::Send(message) => emit(effects, AgentEffect::Send(message.clone())),
            AgentAction::Clipboard(_) => {},
            AgentAction::CloseConnection => emit(effects, AgentEffect::CloseConnection),
        }
        proof {
            assert(effect_views(effects@) =~= before + agent_effects(views.take(index + 1)));
            if earlier {
                let i = choose|i: int| 0 <= i < index && #[trigger] views[i] is ApplyInput;
                assert(0 <= i < index + 1);
            }
        }
        index += 1;
    }
    assert(views.take(index as int) =~= views);
    injecting
}

impl AgentConnection {
    /// A session over a new connection, with what it begins with.
    pub fn new(
        local_node: NodeId,
        controller_node: NodeId,
        session_id: u128,
        generation: u64,
        geometry: DesktopGeometry,
        clipboard_available: bool,
        clipboard_negotiated: bool,
    ) -> (connection: AgentConnection)
        ensures
            connection@ == (AgentRuntimeView {
                controller_node: controller_node@,
                session_id,
                generation,
                agent: crate::session::agent::AgentView {
                    local_node: local_node@,
                    display_size: geometry.size,
                    highest_epoch: 0,
                    active_epoch: None,
                    last_focus: None,
                    last_applied: 0,
                    pending: None,
                    closed: false,
                },
                clipboard: if clipboard_available && clipboard_negotiated {
                    Some(
                        crate::session::clipboard::initial(
                            local_node@,
                            controller_node@,
                        ),
                    )
                } else {
                    None
                },
                applications: crate::runtime::applications::ApplicationsView::none(),
                clipboard_available,
                geometry,
                controlled: false,
                application_pending: false,
            }),
    {
        let clipboard = if clipboard_available && clipboard_negotiated {
            Some(ClipboardSession::new(local_node.clone(), controller_node.clone()))
        } else {
            None
        };
        AgentConnection {
            agent: AgentSession::new(local_node, geometry.size),
            controller_node,
            session_id,
            generation,
            clipboard,
            applications: ClipboardApplications::new(),
            clipboard_available,
            geometry,
            controlled: false,
            application_pending: false,
        }
    }

    /// The controller hears of the desktop first.
    pub fn opening(&self) -> (effects: Vec<AgentEffect>)
        ensures
            effect_views(effects@) == seq![
                display_report(self@.geometry),
                desktop_told(self@.geometry),
            ],
    {
        let mut effects = no_effects();
        emit(&mut effects, report(self.geometry));
        emit(
            &mut effects,
            AgentEffect::Tell(RuntimeEvent::LocalDesktopChanged { geometry: self.geometry }),
        );
        assert(effect_views(effects@) =~= seq![
            display_report(self@.geometry),
            desktop_told(self@.geometry),
        ]);
        effects
    }

    /// The agent was stopped: it says farewell and releases what it holds down.
    pub fn stopped(&self) -> (effects: Vec<AgentEffect>)
        ensures
            effect_views(effects@) == seq![
                AgentEffectView::Send(crate::protocol::message::SessionView::Disconnect),
                AgentEffectView::ReleaseInput,
            ],
    {
        let mut effects = no_effects();
        emit(&mut effects, AgentEffect::Send(Session::Disconnect));
        emit(&mut effects, AgentEffect::ReleaseInput);
        assert(effect_views(effects@) =~= seq![
            AgentEffectView::Send(crate::protocol::message::SessionView::Disconnect),
            AgentEffectView::ReleaseInput,
        ]);
        effects
    }

    /// The connection broke: what is held down is released.
    pub fn lost(&self) -> (effects: Vec<AgentEffect>)
        ensures
            effect_views(effects@) == seq![AgentEffectView::ReleaseInput],
    {
        let mut effects = no_effects();
        emit(&mut effects, AgentEffect::ReleaseInput);
        assert(effect_views(effects@) =~= seq![AgentEffectView::ReleaseInput]);
        effects
    }

    /// Whether the next message may be taken: not while input is injected.
    pub fn accepts_messages(&self) -> (result: bool)
        ensures
            result == !self@.application_pending,
    {
        !self.application_pending
    }

    /// The desktop that was reported last.
    pub fn geometry(&self) -> (geometry: DesktopGeometry)
        ensures
            geometry == self@.geometry,
    {
        self.geometry
    }

    /// A message of the controller came in.
    pub fn message_received(&mut self, message: Session) -> (result: Result<
        Vec<AgentEffect>,
        RuntimeError,
    >)
        ensures
            is_step(message_step(old(self)@, message@), result, final(self)@),
    {
        match message {
            Session::Clipboard(control) => self.control_received(control),
            message => self.input_message_received(message),
        }
    }

    fn input_message_received(&mut self, message: Session) -> (result: Result<
        Vec<AgentEffect>,
        RuntimeError,
    >)
        ensures
            is_step(input_message_step(old(self)@, message@), result, final(self)@),
    {
        let actions = match self.agent.handle(message) {
            Ok(actions) => actions,
            Err(error) => {
                return Err(RuntimeError::Agent(error));
            },
        };
        let mut effects = no_effects();
        self.application_pending = carry_out(actions, &mut effects);
        let controlled = self.agent.active_focus_epoch().is_some();
        if controlled != self.controlled {
            self.controlled = controlled;
            emit(
                &mut effects,
                AgentEffect::Tell(
                    RuntimeEvent::AgentControl {
                        controller: self.controller_node.clone(),
                        active: controlled,
                    },
                ),
            );
        }
        assert(effect_views(effects@) =~= input_message_step(
            old(self)@,
            message@,
        ).outcome->Ok_0);
        Ok(effects)
    }

    /// The desktop of this node changed.
    pub fn desktop_changed(&mut self, geometry: DesktopGeometry) -> (effects: Vec<AgentEffect>)
        ensures
            final(self)@ == desktop_step(old(self)@, geometry).state,
            effect_views(effects@) == desktop_step(old(self)@, geometry).outcome->Ok_0,
    {
        let mut effects = no_effects();
        if geometry == self.geometry {
            return effects;
        }
        self.geometry = geometry;
        self.application_pending = false;
        let actions = self.agent.reconcile_display(geometry.size);
        let _ = carry_out(actions, &mut effects);
        emit(&mut effects, report(geometry));
        if self.controlled {
            self.controlled = false;
            emit(
                &mut effects,
                AgentEffect::Tell(
                    RuntimeEvent::AgentControl {
                        controller: self.controller_node.clone(),
                        active: false,
                    },
                ),
            );
        }
        emit(&mut effects, AgentEffect::Tell(RuntimeEvent::LocalDesktopChanged { geometry }));
        assert(effect_views(effects@) =~= desktop_step(old(self)@, geometry).outcome->Ok_0);
        effects
    }

    /// A batch was injected.
    pub fn batch_injected(&mut self, generation: u64, sequence: u64) -> (result: Result<
        Vec<AgentEffect>,
        RuntimeError,
    >)
        ensures
            is_step(injected_step(old(self)@, generation, sequence), result, final(self)@),
    {
        let mut effects = no_effects();
        if generation != self.generation {
            return Ok(effects);
        }
        self.application_pending = false;
        let actions = match self.agent.confirm_applied(sequence) {
            Ok(actions) => actions,
            Err(error) => {
                return Err(RuntimeError::Agent(error));
            },
        };
        let _ = carry_out(actions, &mut effects);
        assert(effect_views(effects@) =~= injected_step(
            old(self)@,
            generation,
            sequence,
        ).outcome->Ok_0);
        Ok(effects)
    }

    /// The clipboard session took a step with this result.
    fn finish_clipboard(
        &mut self,
        session: ClipboardSession,
        result: Result<Vec<ClipboardAction>, ClipboardSessionError>,
    ) -> (outcome: Result<Vec<AgentEffect>, RuntimeError>)
        ensures
            is_step(
                session_step(
                    old(self)@,
                    crate::session::clipboard::ClipboardStep {
                        state: session@,
                        outcome: crate::session::clipboard::outcome_of(result),
                    },
                ),
                outcome,
                final(self)@,
            ),
    {
        let actions = match result {
            Ok(actions) => actions,
            Err(error) => {
                return Err(RuntimeError::Clipboard(error));
            },
        };
        self.clipboard = Some(session);
        let ghost begun = self@;
        let ghost views = crate::session::clipboard::action_views(actions@);
        let mut effects = no_effects();
        let mut index: usize = 0;
        assert(views.take(0) =~= Seq::<crate::session::clipboard::ActionView>::empty());
        while index < actions.len()
            invariant
                index <= actions@.len(),
                views == crate::session::clipboard::action_views(actions@),
                self@ == (AgentRuntimeView {
                    applications: queued_after(begun.applications, views.take(index as int)),
                    ..begun
                }),
                effect_views(effects@) == clipboard_effects(views.take(index as int)),
            decreases actions@.len() - index,
        {
            proof {
                let longer = views.take(index + 1);
                assert(longer.drop_last() =~= views.take(index as int));
                assert(longer.last() == actions@[index as int]@);
            }
            match &actions[index] {
                ClipboardAction::SendControl(control) => emit(
                    &mut effects,
                    AgentEffect::Send(Session::Clipboard(control.clone())),
                ),
                ClipboardAction::SendTransfer(transfer) => emit(
                    &mut effects,
                    AgentEffect::Transfer(transfer.clone()),
                ),
                ClipboardAction::ApplyRemote(transfer) => {
                    let owner = transfer.generation().owner.clone();
                    self.applications.enqueue(owner, transfer.clone());
                },
            }
            index += 1;
        }
        assert(views.take(index as int) =~= views);
        match self.applications.start_next(self.clipboard_available) {
            Ok(Some(text)) => emit(&mut effects, AgentEffect::ApplyClipboard { text }),
            Ok(None) => {},
            Err(error) => {
                return Err(error);
            },
        }
        proof {
            let step = session_step(
                old(self)@,
                crate::session::clipboard::ClipboardStep {
                    state: session@,
                    outcome: crate::session::clipboard::outcome_of(result),
                },
            );
            assert(effect_views(effects@) =~= step.outcome->Ok_0);
        }
        Ok(effects)
    }

    fn take_session(&mut self) -> (session: Option<ClipboardSession>)
        ensures
            session_view(session) == old(self)@.clipboard,
            final(self)@ == (AgentRuntimeView { clipboard: None, ..old(self)@ }),
    {
        let mut session: Option<ClipboardSession> = None;
        std::mem::swap(&mut self.clipboard, &mut session);
        session
    }

    fn control_received(&mut self, control: ClipboardControl) -> (result: Result<
        Vec<AgentEffect>,
        RuntimeError,
    >)
        ensures
            is_step(control_step(old(self)@, control@), result, final(self)@),
    {
        let acknowledged = match &control {
            ClipboardControl::Applied { .. } => true,
            ClipboardControl::Offered(_) => false,
        };
        let mut session = match self.take_session() {
            Some(session) => session,
            None => {
                return Err(
                    RuntimeError::Session(
                        "controller sent clipboard control without negotiating it".to_owned(),
                    ),
                );
            },
        };
        let received = session.receive_control(control);
        let mut effects = match self.finish_clipboard(session, received) {
            Ok(effects) => effects,
            Err(error) => {
                return Err(error);
            },
        };
        if acknowledged {
            emit(
                &mut effects,
                AgentEffect::Tell(
                    RuntimeEvent::ClipboardSynchronized {
                        peer: self.controller_node.clone(),
                        received: false,
                    },
                ),
            );
        }
        assert(effect_views(effects@) =~= control_step(old(self)@, control@).outcome->Ok_0);
        Ok(effects)
    }

    /// A clipboard text came in.
    pub fn transfer_received(
        &mut self,
        peer: &NodeId,
        session_id: u128,
        transfer: ClipboardText,
    ) -> (result: Result<Vec<AgentEffect>, RuntimeError>)
        ensures
            is_step(
                transfer_step(old(self)@, peer@, session_id, transfer@),
                result,
                final(self)@,
            ),
    {
        if *peer != self.controller_node || session_id != self.session_id {
            return Ok(no_effects());
        }
        let mut session = match self.take_session() {
            Some(session) => session,
            None => {
                return Err(
                    RuntimeError::Session(
                        "controller sent clipboard data without negotiating it".to_owned(),
                    ),
                );
            },
        };
        let received = session.receive_transfer(transfer);
        self.finish_clipboard(session, received)
    }

    /// The clipboard stream failed.
    pub fn clipboard_stream_failed(&mut self, peer: &NodeId, session_id: u128, reason: &str) -> (
    effects: Vec<AgentEffect>)
        ensures
            ({
                let step = stream_failure_step(old(self)@, peer@, session_id, reason@);
                final(self)@ == step.state && effect_views(effects@) == step.outcome->Ok_0
            }),
    {
        let mut effects = no_effects();
        if *peer != self.controller_node || session_id != self.session_id {
            return effects;
        }
        self.clipboard = None;
        let mut message = node_text("Clipboard synchronization with `", peer, "` stopped: ");
        message.append(reason);
        assert(message@ =~= "Clipboard synchronization with `"@ + peer@ + "` stopped: "@
            + reason@);
        emit(&mut effects, AgentEffect::Tell(RuntimeEvent::Error { message }));
        assert(effect_views(effects@) =~= stream_failure_step(
            old(self)@,
            peer@,
            session_id,
            reason@,
        ).outcome->Ok_0);
        effects
    }

    /// The native clipboard told something.
    pub fn clipboard_event(&mut self, event: ClipboardServiceEvent) -> (result: Result<
        Vec<AgentEffect>,
        RuntimeError,
    >)
        ensures
            is_step(
                native_clipboard_step(
                    old(self)@,
                    crate::runtime::controller::clipboard_event_view(event),
                ),
                result,
                final(self)@,
            ),
    {
        let mut effects = no_effects();
        match event {
            ClipboardServiceEvent::Ready { backend } => {
                emit(&mut effects, AgentEffect::Tell(RuntimeEvent::ClipboardReady { backend }));
            },
            ClipboardServiceEvent::Changed { text } => {
                let mut session = match self.take_session() {
                    Some(session) => session,
                    None => {
                        return Ok(effects);
                    },
                };
                let changed = session.local_changed(text);
                return self.finish_clipboard(session, changed);
            },
            ClipboardServiceEvent::Applied => {
                return self.clipboard_applied();
            },
            ClipboardServiceEvent::Failed { operation: _, reason } => {
                let mut message = "Clipboard synchronization stopped: ".to_owned();
                message.append(reason.as_str());
                emit(&mut effects, AgentEffect::Tell(RuntimeEvent::Error { message }));
                self.clipboard = None;
                self.applications = ClipboardApplications::new();
            },
            ClipboardServiceEvent::Stopped => {
                self.clipboard = None;
                self.applications = ClipboardApplications::new();
            },
        }
        assert(effect_views(effects@) =~= native_clipboard_step(
            old(self)@,
            crate::runtime::controller::clipboard_event_view(event),
        ).outcome->Ok_0);
        Ok(effects)
    }

    fn clipboard_applied(&mut self) -> (result: Result<Vec<AgentEffect>, RuntimeError>)
        ensures
            is_step(confirmation_step(old(self)@), result, final(self)@),
    {
        let (peer, generation) = match self.applications.take_pending() {
            Some(pending) => pending,
            None => {
                return Err(
                    RuntimeError::Session(
                        "native clipboard applied without a pending generation".to_owned(),
                    ),
                );
            },
        };
        if peer != self.controller_node {
            return Err(
                RuntimeError::Session(
                    node_text(
                        "native clipboard application belongs to unexpected peer `",
                        &peer,
                        "`",
                    ),
                ),
            );
        }
        let mut session = match self.take_session() {
            Some(session) => session,
            None => {
                return Ok(no_effects());
            },
        };
        let confirmed = session.confirm_applied(&generation);
        let mut effects = match self.finish_clipboard(session, confirmed) {
            Ok(effects) => effects,
            Err(error) => {
                return Err(error);
            },
        };
        emit(
            &mut effects,
            AgentEffect::Tell(RuntimeEvent::ClipboardSynchronized { peer, received: true }),
        );
        assert(effect_views(effects@) =~= confirmation_step(old(self)@).outcome->Ok_0);
        Ok(effects)
    }

    /// The next waiting text goes to the native clipboard, after its events were
    /// taken.
    pub fn clipboard_idle(&mut self) -> (result: Result<Vec<AgentEffect>, RuntimeError>)
        ensures
            is_step(application_step(old(self)@), result, final(self)@),
    {
        let mut effects = no_effects();
        match self.applications.start_next(self.clipboard_available) {
            Ok(Some(text)) => emit(&mut effects, AgentEffect::ApplyClipboard { text }),
            Ok(None) => {},
            Err(error) => {
                return Err(error);
            },
        }
        assert(effect_views(effects@) =~= application_step(old(self)@).outcome->Ok_0);
        Ok(effects)
    }
}

/// Counts the attempts to reach a controller.
#[derive(Debug)]
pub struct Reconnects {
    policy: ReconnectPolicy,
    attempt: u32,
}

pub ghost struct ReconnectsView {
    pub policy: crate::transport::config::PolicyView,
    pub attempt: u32,
}

impl View for Reconnects {
    type V = ReconnectsView;

    closed spec fn view(&self) -> ReconnectsView {
        ReconnectsView { policy: self.policy@, attempt: self.attempt }
    }
}

/// One more, no further than the largest number.
pub open spec fn one_more(attempt: u32) -> u32 {
    if attempt < u32::MAX {
        (attempt + 1) as u32
    } else {
        u32::MAX
    }
}

impl Reconnects {
    pub fn new(policy: ReconnectPolicy) -> (reconnects: Reconnects)
        ensures
            reconnects@ == (ReconnectsView { policy: policy@, attempt: 0 }),
    {
        Reconnects { policy, attempt: 0 }
    }

    /// The number of the attempt that is made now.
    pub fn current(&self) -> (attempt: u32)
        ensures
            attempt == one_more(self@.attempt),
    {
        if self.attempt < u32::MAX {
            self.attempt + 1
        } else {
            u32::MAX
        }
    }

    /// The controller was reached.
    pub fn connected(&mut self)
        ensures
            final(self)@ == (ReconnectsView { attempt: 0, ..old(self)@ }),
    {
        self.attempt = 0;
    }

    /// How long to wait before the next attempt. Fails where there is none.
    pub fn next_delay(&mut self, controller: &NodeId) -> (result: Result<Duration, RuntimeError>)
        ensures
            match result {
                Ok(delay) => old(self)@.attempt < old(self)@.policy.maximum_attempts && delay@
                    == old(self)@.policy.delay(old(self)@.attempt) && final(self)@ == (
                ReconnectsView { attempt: one_more(old(self)@.attempt), ..old(self)@ }),
                Err(error) => old(self)@.attempt >= old(self)@.policy.maximum_attempts && error@
                    == crate::runtime::event::RuntimeFault::ReconnectExhausted(controller@)
                    && final(self)@ == old(self)@,
            },
    {
        let delay = match self.policy.delay_before(self.attempt) {
            Some(delay) => delay,
            None => {
                return Err(RuntimeError::ReconnectExhausted(controller.clone()));
            },
        };
        self.attempt = self.current();
        Ok(delay)
    }
}

} // verus!
