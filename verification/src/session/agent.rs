//! The agent: applies the input that a controller sends.

use vstd::prelude::*;
use vstd::string::*;

use crate::domain::geometry::{Point, Size};
use crate::domain::identity::NodeId;
use crate::protocol::clipboard::ClipboardControl;
use crate::protocol::message::{InputBatch, Session, MAX_INPUT_EVENTS_PER_BATCH};
use crate::text::{push_decimal, push_optional_decimal, signed_text};

verus! {

/// The focus that a controller announced.
#[derive(Debug)]
struct FocusState {
    epoch: u64,
    target: NodeId,
    entry_position: Point,
}

pub ghost struct FocusView {
    pub epoch: u64,
    pub target: Seq<char>,
    pub entry_position: Point,
}

impl View for FocusState {
    type V = FocusView;

    closed spec fn view(&self) -> FocusView {
        FocusView {
            epoch: self.epoch,
            target: self.target@,
            entry_position: self.entry_position,
        }
    }
}

/// Applies input of the active focus epoch in sequence, and acknowledges it
/// once the native backend has confirmed it.
#[derive(Debug)]
pub struct AgentSession {
    local_node: NodeId,
    display_size: Size,
    highest_focus_epoch: u64,
    active_focus_epoch: Option<u64>,
    last_focus: Option<FocusState>,
    last_applied_sequence: u64,
    pending_batch: Option<InputBatch>,
    closed: bool,
}

pub ghost struct AgentView {
    pub local_node: Seq<char>,
    pub display_size: Size,
    /// The highest focus epoch that was announced.
    pub highest_epoch: u64,
    /// The epoch whose input is accepted.
    pub active_epoch: Option<u64>,
    /// The last focus that was announced.
    pub last_focus: Option<FocusView>,
    /// The last sequence that was applied and confirmed.
    pub last_applied: u64,
    /// The batch that the native backend is applying.
    pub pending: Option<crate::protocol::message::BatchView>,
    pub closed: bool,
}

impl View for AgentSession {
    type V = AgentView;

    closed spec fn view(&self) -> AgentView {
        AgentView {
            local_node: self.local_node@,
            display_size: self.display_size,
            highest_epoch: self.highest_focus_epoch,
            active_epoch: self.active_focus_epoch,
            last_focus: match self.last_focus {
                Some(focus) => Some(focus@),
                None => None,
            },
            last_applied: self.last_applied_sequence,
            pending: match self.pending_batch {
                Some(batch) => Some(batch@),
                None => None,
            },
            closed: self.closed,
        }
    }
}

impl AgentView {
    /// What holds in every state of an agent.
    pub open spec fn is_valid(self) -> bool {
        &&& self.active_epoch matches Some(epoch) ==> epoch == self.highest_epoch
        &&& self.pending matches Some(batch) ==> self.last_applied + 1 == batch.sequence
            && self.active_epoch == Some(batch.focus_epoch) && 0 < batch.events.len()
            <= MAX_INPUT_EVENTS_PER_BATCH
        &&& self.last_focus matches Some(focus) ==> focus.epoch == self.highest_epoch
        &&& self.closed ==> self.active_epoch is None
    }

    /// The position lies on the local display.
    pub open spec fn displays(self, position: Point) -> bool {
        &&& 0 <= position.x < self.display_size.width@
        &&& 0 <= position.y < self.display_size.height@
    }
}

pub ghost enum ActionView {
    FocusEntered { position: Point },
    ApplyInput(crate::protocol::message::BatchView),
    ReleaseAllInput,
    Send(crate::protocol::message::SessionView),
    Clipboard(crate::protocol::clipboard::ControlView),
    CloseConnection,
}

/// The outcome of a step: the next state and what the agent does or refuses.
pub ghost struct AgentStep {
    pub state: AgentView,
    pub outcome: Result<Seq<ActionView>, AgentError>,
}

pub open spec fn done(state: AgentView, actions: Seq<ActionView>) -> AgentStep {
    AgentStep { state, outcome: Ok(actions) }
}

pub open spec fn refused(state: AgentView, error: AgentError) -> AgentStep {
    AgentStep { state, outcome: Err(error) }
}

/// How an agent takes an announced focus.
pub open spec fn focus_step(state: AgentView, focus: FocusView) -> AgentStep {
    if focus.epoch < state.highest_epoch {
        done(state, seq![])
    } else if focus.epoch == state.highest_epoch {
        if state.last_focus == Some(focus) {
            done(state, seq![])
        } else {
            refused(state, AgentError::ConflictingFocusEpoch { focus_epoch: focus.epoch })
        }
    } else if let Some(batch) = state.pending {
        refused(state, AgentError::InputApplicationPending { sequence: batch.sequence })
    } else if focus.target == state.local_node && !state.displays(focus.entry_position) {
        refused(
            state,
            AgentError::EntryPositionOutsideDisplay {
                position: focus.entry_position,
                width: state.display_size.width@,
                height: state.display_size.height@,
            },
        )
    } else {
        let released = if state.active_epoch is Some {
            seq![ActionView::ReleaseAllInput]
        } else {
            seq![]
        };
        let entered = if focus.target == state.local_node {
            seq![ActionView::FocusEntered { position: focus.entry_position }]
        } else {
            seq![]
        };
        done(
            AgentView {
                highest_epoch: focus.epoch,
                active_epoch: if focus.target == state.local_node {
                    Some(focus.epoch)
                } else {
                    None
                },
                last_focus: Some(focus),
                ..state
            },
            released + entered,
        )
    }
}

/// How an agent takes a batch of input.
pub open spec fn input_step(
    state: AgentView,
    batch: crate::protocol::message::BatchView,
) -> AgentStep {
    if batch.events.len() == 0 {
        refused(state, AgentError::EmptyInputBatch)
    } else if batch.events.len() > MAX_INPUT_EVENTS_PER_BATCH {
        refused(
            state,
            AgentError::TooManyInputEvents {
                actual: batch.events.len() as usize,
                maximum: MAX_INPUT_EVENTS_PER_BATCH,
            },
        )
    } else if batch.focus_epoch < state.highest_epoch {
        refused(
            state,
            AgentError::StaleInputEpoch {
                received: batch.focus_epoch,
                current: state.highest_epoch,
            },
        )
    } else if state.active_epoch != Some(batch.focus_epoch) {
        refused(
            state,
            AgentError::InactiveInputEpoch {
                received: batch.focus_epoch,
                active: state.active_epoch,
            },
        )
    } else if let Some(pending) = state.pending {
        refused(state, AgentError::InputApplicationPending { sequence: pending.sequence })
    } else if batch.sequence <= state.last_applied {
        done(state, seq![acknowledgement(state.last_applied)])
    } else if state.last_applied == u64::MAX {
        refused(state, AgentError::InputSequenceExhausted)
    } else if batch.sequence != state.last_applied + 1 {
        refused(
            state,
            AgentError::InputSequenceGap {
                expected: (state.last_applied + 1) as u64,
                received: batch.sequence,
            },
        )
    } else {
        done(
            AgentView { pending: Some(batch), ..state },
            seq![ActionView::ApplyInput(batch)],
        )
    }
}

pub open spec fn acknowledgement(through_sequence: u64) -> ActionView {
    ActionView::Send(
        crate::protocol::message::SessionView::InputAcknowledged { through_sequence },
    )
}

/// How an agent ends its session.
pub open spec fn close_step(state: AgentView) -> AgentStep {
    done(
        AgentView { active_epoch: None, pending: None, closed: true, ..state },
        seq![ActionView::ReleaseAllInput, ActionView::CloseConnection],
    )
}

/// How an agent takes a message of its controller.
pub open spec fn message_step(
    state: AgentView,
    message: crate::protocol::message::SessionView,
) -> AgentStep {
    if state.closed {
        refused(state, AgentError::SessionClosed)
    } else {
        match message {
            crate::protocol::message::SessionView::DisplayChanged { .. } => refused(
                state,
                AgentError::UnexpectedDisplayChange,
            ),
            crate::protocol::message::SessionView::FocusChanged {
                focus_epoch,
                target,
                entry_position,
            } => focus_step(state, FocusView { epoch: focus_epoch, target, entry_position }),
            crate::protocol::message::SessionView::Input(batch) => input_step(state, batch),
            crate::protocol::message::SessionView::InputAcknowledged { .. } => refused(
                state,
                AgentError::UnexpectedAcknowledgement,
            ),
            crate::protocol::message::SessionView::Heartbeat { nonce } => done(
                state,
                seq![
                    ActionView::Send(
                        crate::protocol::message::SessionView::HeartbeatAcknowledged { nonce },
                    ),
                ],
            ),
            crate::protocol::message::SessionView::HeartbeatAcknowledged { .. } => done(
                state,
                seq![],
            ),
            crate::protocol::message::SessionView::Clipboard(control) => done(
                state,
                seq![ActionView::Clipboard(control)],
            ),
            crate::protocol::message::SessionView::Disconnect => close_step(state),
        }
    }
}

/// How an agent takes the confirmation that a batch was applied.
pub open spec fn confirmation_step(state: AgentView, sequence: u64) -> AgentStep {
    if state.closed {
        refused(state, AgentError::SessionClosed)
    } else {
        match state.pending {
            None => refused(state, AgentError::NoInputApplicationPending),
            Some(batch) => if batch.sequence != sequence {
                refused(
                    state,
                    AgentError::AppliedSequenceMismatch {
                        expected: batch.sequence,
                        received: sequence,
                    },
                )
            } else {
                done(
                    AgentView { last_applied: sequence, pending: None, ..state },
                    seq![acknowledgement(sequence)],
                )
            },
        }
    }
}

/// How an agent takes a change of its own display.
pub open spec fn display_step(state: AgentView, display_size: Size) -> AgentStep {
    done(
        AgentView { display_size, active_epoch: None, pending: None, ..state },
        seq![ActionView::ReleaseAllInput],
    )
}

/// What came of a step, in the terms of the model.
pub open spec fn outcome_of(result: Result<Vec<AgentAction>, AgentError>) -> Result<
    Seq<ActionView>,
    AgentError,
> {
    match result {
        Ok(actions) => Ok(action_views(actions@)),
        Err(error) => Err(error),
    }
}

pub open spec fn action_views(actions: Seq<AgentAction>) -> Seq<ActionView> {
    actions.map_values(|action: AgentAction| action@)
}

fn only(action: AgentAction) -> (actions: Vec<AgentAction>)
    ensures
        action_views(actions@) == seq![action@],
{
    let actions = vec![action];
    assert(action_views(actions@) =~= seq![action@]);
    actions
}

fn nothing() -> (actions: Vec<AgentAction>)
    ensures
        action_views(actions@) == Seq::<ActionView>::empty(),
{
    let actions: Vec<AgentAction> = Vec::new();
    assert(action_views(actions@) =~= Seq::<ActionView>::empty());
    actions
}

impl AgentSession {
    #[verifier::type_invariant]
    closed spec fn is_valid(self) -> bool {
        self@.is_valid()
    }

    pub fn new(local_node: NodeId, display_size: Size) -> (session: AgentSession)
        ensures
            session@ == (AgentView {
                local_node: local_node@,
                display_size,
                highest_epoch: 0,
                active_epoch: None,
                last_focus: None,
                last_applied: 0,
                pending: None,
                closed: false,
            }),
            session@.is_valid(),
    {
        AgentSession {
            local_node,
            display_size,
            highest_focus_epoch: 0,
            active_focus_epoch: None,
            last_focus: None,
            last_applied_sequence: 0,
            pending_batch: None,
            closed: false,
        }
    }

    pub fn active_focus_epoch(&self) -> (epoch: Option<u64>)
        ensures
            epoch == self@.active_epoch,
            self@.is_valid(),
    {
        proof {
            use_type_invariant(self);
        }
        self.active_focus_epoch
    }

    pub fn last_applied_sequence(&self) -> (sequence: u64)
        ensures
            sequence == self@.last_applied,
            self@.is_valid(),
    {
        proof {
            use_type_invariant(self);
        }
        self.last_applied_sequence
    }

    /// Takes a message of the controller.
    pub fn handle(&mut self, message: Session) -> (result: Result<Vec<AgentAction>, AgentError>)
        ensures
            (AgentStep { state: final(self)@, outcome: outcome_of(result) }) == message_step(
                old(self)@,
                message@,
            ),
            old(self)@.is_valid(),
            final(self)@.is_valid(),
    {
        proof {
            use_type_invariant(&*self);
        }
        if self.closed {
            return Err(AgentError::SessionClosed);
        }
        match message {
            Session::DisplayChanged { .. } => Err(AgentError::UnexpectedDisplayChange),
            Session::FocusChanged { focus_epoch, target, entry_position } => self.change_focus(
                focus_epoch,
                target,
                entry_position,
            ),
            Session::Input(batch) => self.receive_input(batch),
            Session::InputAcknowledged { .. } => Err(AgentError::UnexpectedAcknowledgement),
            Session::Heartbeat { nonce } => Ok(
                only(AgentAction::Send(Session::HeartbeatAcknowledged { nonce })),
            ),
            Session::HeartbeatAcknowledged { .. } => Ok(nothing()),
            Session::Clipboard(control) => Ok(only(AgentAction::Clipboard(control))),
            Session::Disconnect => Ok(self.close()),
        }
    }

    /// Confirms that the pending batch was fully applied by the native backend.
    ///
    /// The returned acknowledgement must only be sent after this method succeeds.
    pub fn confirm_applied(&mut self, sequence: u64) -> (result: Result<
        Vec<AgentAction>,
        AgentError,
    >)
        ensures
            (AgentStep { state: final(self)@, outcome: outcome_of(result) }) == confirmation_step(
                old(self)@,
                sequence,
            ),
            old(self)@.is_valid(),
            final(self)@.is_valid(),
    {
        proof {
            use_type_invariant(&*self);
        }
        if self.closed {
            return Err(AgentError::SessionClosed);
        }
        let expected: u64 = match &self.pending_batch {
            Some(pending) => pending.sequence,
            None => {
                return Err(AgentError::NoInputApplicationPending);
            },
        };
        if expected != sequence {
            return Err(AgentError::AppliedSequenceMismatch { expected, received: sequence });
        }
        self.pending_batch = None;
        self.last_applied_sequence = sequence;
        Ok(only(AgentAction::Send(Session::InputAcknowledged { through_sequence: sequence })))
    }

    /// Invalidates remote focus after the native display geometry changes.
    pub fn reconcile_display(&mut self, display_size: Size) -> (actions: Vec<AgentAction>)
        ensures
            (AgentStep { state: final(self)@, outcome: Ok(action_views(actions@)) })
                == display_step(old(self)@, display_size),
            old(self)@.is_valid(),
            final(self)@.is_valid(),
    {
        proof {
            use_type_invariant(&*self);
        }
        self.pending_batch = None;
        self.display_size = display_size;
        self.active_focus_epoch = None;
        only(AgentAction::ReleaseAllInput)
    }

    /// Closes the state machine after a transport or platform failure.
    pub fn connection_lost(&mut self) -> (actions: Vec<AgentAction>)
        ensures
            (AgentStep { state: final(self)@, outcome: Ok(action_views(actions@)) }) == close_step(
                old(self)@,
            ),
            old(self)@.is_valid(),
            final(self)@.is_valid(),
    {
        self.close()
    }

    fn change_focus(&mut self, focus_epoch: u64, target: NodeId, entry_position: Point) -> (result:
        Result<Vec<AgentAction>, AgentError>)
        requires
            !old(self)@.closed,
        ensures
            (AgentStep { state: final(self)@, outcome: outcome_of(result) }) == focus_step(
                old(self)@,
                FocusView { epoch: focus_epoch, target: target@, entry_position },
            ),
            final(self)@.is_valid(),
    {
        proof {
            use_type_invariant(&*self);
        }
        if focus_epoch < self.highest_focus_epoch {
            return Ok(nothing());
        }
        if focus_epoch == self.highest_focus_epoch {
            let repeated = match &self.last_focus {
                Some(last) => last.epoch == focus_epoch && last.target == target
                    && last.entry_position == entry_position,
                None => false,
            };
            return if repeated {
                Ok(nothing())
            } else {
                Err(AgentError::ConflictingFocusEpoch { focus_epoch })
            };
        }
        if let Some(pending) = &self.pending_batch {
            return Err(AgentError::InputApplicationPending { sequence: pending.sequence });
        }
        let local = target == self.local_node;
        if local && !contains_local(self.display_size, entry_position) {
            return Err(
                AgentError::EntryPositionOutsideDisplay {
                    position: entry_position,
                    width: self.display_size.width.get(),
                    height: self.display_size.height.get(),
                },
            );
        }
        let was_active = self.active_focus_epoch.is_some();
        self.active_focus_epoch = None;
        self.last_focus = None;
        self.highest_focus_epoch = focus_epoch;
        self.last_focus = Some(FocusState { epoch: focus_epoch, target, entry_position });
        let mut actions: Vec<AgentAction> = Vec::new();
        if was_active {
            actions.push(AgentAction::ReleaseAllInput);
        }
        if local {
            self.active_focus_epoch = Some(focus_epoch);
            actions.push(AgentAction::FocusEntered { position: entry_position });
        }
        proof {
            let expected = focus_step(
                old(self)@,
                FocusView { epoch: focus_epoch, target: target@, entry_position },
            );
            assert(action_views(actions@) =~= expected.outcome->Ok_0);
        }
        Ok(actions)
    }

    fn receive_input(&mut self, batch: InputBatch) -> (result: Result<Vec<AgentAction>, AgentError>)
        requires
            !old(self)@.closed,
        ensures
            (AgentStep { state: final(self)@, outcome: outcome_of(result) }) == input_step(
                old(self)@,
                batch@,
            ),
            final(self)@.is_valid(),
    {
        proof {
            use_type_invariant(&*self);
        }
        match validate_batch(&batch) {
            Ok(()) => {},
            Err(error) => {
                return Err(error);
            },
        }
        if batch.focus_epoch < self.highest_focus_epoch {
            return Err(
                AgentError::StaleInputEpoch {
                    received: batch.focus_epoch,
                    current: self.highest_focus_epoch,
                },
            );
        }
        if self.active_focus_epoch != Some(batch.focus_epoch) {
            return Err(
                AgentError::InactiveInputEpoch {
                    received: batch.focus_epoch,
                    active: self.active_focus_epoch,
                },
            );
        }
        if let Some(pending) = &self.pending_batch {
            return Err(AgentError::InputApplicationPending { sequence: pending.sequence });
        }
        if batch.sequence <= self.last_applied_sequence {
            return Ok(
                only(
                    AgentAction::Send(
                        Session::InputAcknowledged { through_sequence: self.last_applied_sequence },
                    ),
                ),
            );
        }
        let expected: u64 = match self.last_applied_sequence.checked_add(1) {
            Some(expected) => expected,
            None => {
                return Err(AgentError::InputSequenceExhausted);
            },
        };
        if batch.sequence != expected {
            return Err(AgentError::InputSequenceGap { expected, received: batch.sequence });
        }
        self.pending_batch = Some(batch.clone());
        Ok(only(AgentAction::ApplyInput(batch)))
    }

    fn close(&mut self) -> (actions: Vec<AgentAction>)
        ensures
            (AgentStep { state: final(self)@, outcome: Ok(action_views(actions@)) }) == close_step(
                old(self)@,
            ),
            old(self)@.is_valid(),
            final(self)@.is_valid(),
    {
        proof {
            use_type_invariant(&*self);
        }
        self.pending_batch = None;
        self.active_focus_epoch = None;
        self.closed = true;
        let actions = vec![AgentAction::ReleaseAllInput, AgentAction::CloseConnection];
        assert(action_views(actions@) =~= seq![
            ActionView::ReleaseAllInput,
            ActionView::CloseConnection,
        ]);
        actions
    }
}

/// Actions are ordered. A caller must finish `ApplyInput` before confirming the
/// batch and processing any later network action.
#[derive(Debug, PartialEq, Eq)]
pub enum AgentAction {
    FocusEntered { position: Point },
    ApplyInput(InputBatch),
    ReleaseAllInput,
    Send(Session),
    Clipboard(ClipboardControl),
    CloseConnection,
}

impl View for AgentAction {
    type V = ActionView;

    open spec fn view(&self) -> ActionView {
        match self {
            AgentAction::FocusEntered { position } => ActionView::FocusEntered {
                position: *position,
            },
            AgentAction::ApplyInput(batch) => ActionView::ApplyInput(batch@),
            AgentAction::ReleaseAllInput => ActionView::ReleaseAllInput,
            AgentAction::Send(message) => ActionView::Send(message@),
            AgentAction::Clipboard(control) => ActionView::Clipboard(control@),
            AgentAction::CloseConnection => ActionView::CloseConnection,
        }
    }
}

/// Why an agent refuses a message or a confirmation.
#[derive(Clone, Copy, Debug, PartialEq, Eq, Structural)]
pub enum AgentError {
    SessionClosed,
    ConflictingFocusEpoch { focus_epoch: u64 },
    EntryPositionOutsideDisplay { position: Point, width: u32, height: u32 },
    StaleInputEpoch { received: u64, current: u64 },
    InactiveInputEpoch { received: u64, active: Option<u64> },
    InputSequenceGap { expected: u64, received: u64 },
    InputSequenceExhausted,
    EmptyInputBatch,
    TooManyInputEvents { actual: usize, maximum: usize },
    InputApplicationPending { sequence: u64 },
    NoInputApplicationPending,
    AppliedSequenceMismatch { expected: u64, received: u64 },
    UnexpectedAcknowledgement,
    UnexpectedDisplayChange,
}

fn contains_local(size: Size, point: Point) -> (result: bool)
    ensures
        result == (0 <= point.x < size.width@ && 0 <= point.y < size.height@),
{
    point.x >= 0 && point.y >= 0 && (point.x as i64) < (size.width.get() as i64) && (point.y as i64)
        < (size.height.get() as i64)
}

fn validate_batch(batch: &InputBatch) -> (result: Result<(), AgentError>)
    ensures
        result == if batch@.events.len() == 0 {
            Err::<(), AgentError>(AgentError::EmptyInputBatch)
        } else if batch@.events.len() > MAX_INPUT_EVENTS_PER_BATCH {
            Err(
                AgentError::TooManyInputEvents {
                    actual: batch@.events.len() as usize,
                    maximum: MAX_INPUT_EVENTS_PER_BATCH,
                },
            )
        } else {
            Ok(())
        },
{
    if batch.events.is_empty() {
        return Err(AgentError::EmptyInputBatch);
    }
    if batch.events.len() > MAX_INPUT_EVENTS_PER_BATCH {
        return Err(
            AgentError::TooManyInputEvents {
                actual: batch.events.len(),
                maximum: MAX_INPUT_EVENTS_PER_BATCH,
            },
        );
    }
    Ok(())
}

/// Something that happens to an agent.
pub ghost enum AgentEvent {
    Message(crate::protocol::message::SessionView),
    Confirmation { sequence: u64 },
    DisplayChange { display_size: Size },
    ConnectionLoss,
}

pub open spec fn step(state: AgentView, event: AgentEvent) -> AgentStep {
    match event {
        AgentEvent::Message(message) => message_step(state, message),
        AgentEvent::Confirmation { sequence } => confirmation_step(state, sequence),
        AgentEvent::DisplayChange { display_size } => display_step(state, display_size),
        AgentEvent::ConnectionLoss => close_step(state),
    }
}

/// The state after a series of events.
pub open spec fn state_after(state: AgentView, events: Seq<AgentEvent>) -> AgentView
    decreases events.len(),
{
    if events.len() == 0 {
        state
    } else {
        step(state_after(state, events.drop_last()), events.last()).state
    }
}

/// The event makes the agent apply this batch.
pub open spec fn applies(
    state: AgentView,
    event: AgentEvent,
    batch: crate::protocol::message::BatchView,
) -> bool {
    step(state, event).outcome matches Ok(actions) && actions.contains(
        ActionView::ApplyInput(batch),
    )
}

/// The event makes the agent acknowledge input up to this sequence.
pub open spec fn acknowledges(state: AgentView, event: AgentEvent, sequence: u64) -> bool {
    step(state, event).outcome matches Ok(actions) && actions.contains(acknowledgement(sequence))
}

/// Every event leads from a valid state to a valid state, whatever display
/// changes and losses happen in between.
pub proof fn law_agent_states_stay_valid(state: AgentView, events: Seq<AgentEvent>)
    requires
        state.is_valid(),
    ensures
        state_after(state, events).is_valid(),
    decreases events.len(),
{
    if events.len() > 0 {
        law_agent_states_stay_valid(state, events.drop_last());
    }
}

/// Input is applied only if it came as a batch of 1 to 512 events of the active
/// epoch, which is the newest that was announced, with the next sequence, and
/// while no other batch is being applied.
pub proof fn law_only_current_input_is_applied(
    state: AgentView,
    event: AgentEvent,
    batch: crate::protocol::message::BatchView,
)
    requires
        state.is_valid(),
        applies(state, event, batch),
    ensures
        event == AgentEvent::Message(crate::protocol::message::SessionView::Input(batch)),
        !state.closed,
        batch.focus_epoch == state.highest_epoch,
        state.active_epoch == Some(batch.focus_epoch),
        batch.sequence == state.last_applied + 1,
        state.pending is None,
        0 < batch.events.len() <= MAX_INPUT_EVENTS_PER_BATCH,
{
    let actions = step(state, event).outcome->Ok_0;
    let i = choose|i: int|
        0 <= i < actions.len() && actions[i] == ActionView::ApplyInput(batch);
    assert(actions[i] == ActionView::ApplyInput(batch));
}

/// Input is acknowledged only as far as the native backend has confirmed it:
/// the acknowledged sequence is the last that was applied, and it has just been
/// confirmed or was confirmed before.
pub proof fn law_only_applied_input_is_acknowledged(
    state: AgentView,
    event: AgentEvent,
    sequence: u64,
)
    requires
        state.is_valid(),
        acknowledges(state, event, sequence),
    ensures
        step(state, event).state.last_applied == sequence,
        sequence == state.last_applied || (event == (AgentEvent::Confirmation { sequence })
            && (state.pending matches Some(batch) && batch.sequence == sequence)),
{
    let actions = step(state, event).outcome->Ok_0;
    let i = choose|i: int| 0 <= i < actions.len() && actions[i] == acknowledgement(sequence);
    assert(actions[i] == acknowledgement(sequence));
}

/// After a series of events the last applied sequence has not gone back, and
/// one event carries it on by at most one.
pub proof fn law_sequences_are_applied_in_order(state: AgentView, event: AgentEvent)
    requires
        state.is_valid(),
    ensures
        ({
            let next = step(state, event).state;
            next.last_applied == state.last_applied || (next.last_applied == state.last_applied + 1
                && event is Confirmation)
        }),
{
}

/// Once a newer focus has been announced, input of an older epoch is refused
/// ever after, and nothing of it is applied.
pub proof fn law_old_epochs_are_never_applied(
    state: AgentView,
    events: Seq<AgentEvent>,
    batch: crate::protocol::message::BatchView,
)
    requires
        state.is_valid(),
        batch.focus_epoch < state.highest_epoch,
    ensures
        !applies(
            state_after(state, events),
            AgentEvent::Message(crate::protocol::message::SessionView::Input(batch)),
            batch,
        ),
        state_after(state, events).highest_epoch >= state.highest_epoch,
    decreases events.len(),
{
    law_agent_states_stay_valid(state, events);
    if events.len() > 0 {
        law_old_epochs_are_never_applied(state, events.drop_last(), batch);
        let before = state_after(state, events.drop_last());
        assert(step(before, events.last()).state.highest_epoch >= before.highest_epoch);
    }
    let last = state_after(state, events);
    let event = AgentEvent::Message(crate::protocol::message::SessionView::Input(batch));
    if applies(last, event, batch) {
        law_only_current_input_is_applied(last, event, batch);
    }
}

/// A batch that was already applied is answered with the last acknowledgement
/// again and changes nothing.
pub proof fn law_duplicates_repeat_the_acknowledgement(
    state: AgentView,
    batch: crate::protocol::message::BatchView,
)
    requires
        state.is_valid(),
        !state.closed,
        state.active_epoch == Some(batch.focus_epoch),
        state.pending is None,
        0 < batch.events.len() <= MAX_INPUT_EVENTS_PER_BATCH,
        batch.sequence <= state.last_applied,
    ensures
        message_step(state, crate::protocol::message::SessionView::Input(batch)) == done(
            state,
            seq![acknowledgement(state.last_applied)],
        ),
{
}

/// Whatever takes the active focus away releases the held input first.
pub proof fn law_losing_focus_releases_input_first(state: AgentView, event: AgentEvent)
    requires
        state.is_valid(),
        state.active_epoch is Some,
        step(state, event).state.active_epoch != state.active_epoch,
    ensures
        step(state, event).outcome matches Ok(actions) && actions.len() > 0 && actions[0]
            is ReleaseAllInput,
{
}

/// A refused message or confirmation changes nothing.
pub proof fn law_refusals_change_nothing(state: AgentView, event: AgentEvent)
    ensures
        step(state, event).outcome is Err ==> step(state, event).state == state,
{
}

/// A closed session refuses every message and confirmation and stays closed.
pub proof fn law_closed_sessions_stay_closed(state: AgentView, event: AgentEvent)
    requires
        state.closed,
    ensures
        step(state, event).state.closed,
        event is Message || event is Confirmation ==> step(state, event) == refused(
            state,
            AgentError::SessionClosed,
        ),
{
}

impl AgentError {
    /// The error in words.
    pub open spec fn text(self) -> Seq<char> {
        match self {
            AgentError::SessionClosed => "the agent session is closed"@,
            AgentError::ConflictingFocusEpoch { focus_epoch } => {
                "focus epoch "@ + crate::text::decimal(focus_epoch as nat)
                    + " conflicts with an earlier focus message"@
            },
            AgentError::EntryPositionOutsideDisplay { position, width, height } => {
                "entry position ("@ + crate::text::signed_decimal(position.x as int) + ", "@
                    + crate::text::signed_decimal(position.y as int) + ") is outside the local "@
                    + crate::text::decimal(width as nat) + "x"@
                    + crate::text::decimal(height as nat) + " display"@
            },
            AgentError::StaleInputEpoch { received, current } => {
                "input batch epoch "@ + crate::text::decimal(received as nat)
                    + " is stale; the current epoch is "@ + crate::text::decimal(current as nat)
            },
            AgentError::InactiveInputEpoch { received, active } => {
                "input batch epoch "@ + crate::text::decimal(received as nat)
                    + " is not active; active epoch is "@ + crate::text::optional_decimal(active)
            },
            AgentError::InputSequenceGap { expected, received } => {
                "input sequence gap: expected "@ + crate::text::decimal(expected as nat)
                    + ", received "@ + crate::text::decimal(received as nat)
            },
            AgentError::InputSequenceExhausted => "input sequence is exhausted"@,
            AgentError::EmptyInputBatch => "input batch cannot be empty"@,
            AgentError::TooManyInputEvents { actual, maximum } => {
                "input batch has "@ + crate::text::decimal(actual as nat)
                    + " events; the maximum is "@ + crate::text::decimal(maximum as nat)
            },
            AgentError::InputApplicationPending { sequence } => {
                "input batch "@ + crate::text::decimal(sequence as nat)
                    + " is still awaiting native application"@
            },
            AgentError::NoInputApplicationPending => {
                "there is no input batch awaiting native application"@
            },
            AgentError::AppliedSequenceMismatch { expected, received } => {
                "applied input sequence "@ + crate::text::decimal(received as nat)
                    + " does not match pending sequence "@ + crate::text::decimal(expected as nat)
            },
            AgentError::UnexpectedAcknowledgement => {
                "an input acknowledgement is not valid on an agent session"@
            },
            AgentError::UnexpectedDisplayChange => {
                "a display change is not valid from a controller"@
            },
        }
    }

    /// The error in words.
    pub fn message(&self) -> (message: String)
        ensures
            message@ == self.text(),
    {
        let mut message = String::new();
        match self {
            AgentError::SessionClosed => message.append("the agent session is closed"),
            AgentError::ConflictingFocusEpoch { focus_epoch } => {
                message.append("focus epoch ");
                push_decimal(&mut message, *focus_epoch as u64);
                message.append(" conflicts with an earlier focus message");
            },
            AgentError::EntryPositionOutsideDisplay { position, width, height } => {
                message.append("entry position (");
                message.append(signed_text(position.x).as_str());
                message.append(", ");
                message.append(signed_text(position.y).as_str());
                message.append(") is outside the local ");
                push_decimal(&mut message, *width as u64);
                message.append("x");
                push_decimal(&mut message, *height as u64);
                message.append(" display");
            },
            AgentError::StaleInputEpoch { received, current } => {
                message.append("input batch epoch ");
                push_decimal(&mut message, *received as u64);
                message.append(" is stale; the current epoch is ");
                push_decimal(&mut message, *current as u64);
            },
            AgentError::InactiveInputEpoch { received, active } => {
                message.append("input batch epoch ");
                push_decimal(&mut message, *received as u64);
                message.append(" is not active; active epoch is ");
                push_optional_decimal(&mut message, *active);
            },
            AgentError::InputSequenceGap { expected, received } => {
                message.append("input sequence gap: expected ");
                push_decimal(&mut message, *expected as u64);
                message.append(", received ");
                push_decimal(&mut message, *received as u64);
            },
            AgentError::InputSequenceExhausted => message.append("input sequence is exhausted"),
            AgentError::EmptyInputBatch => message.append("input batch cannot be empty"),
            AgentError::TooManyInputEvents { actual, maximum } => {
                message.append("input batch has ");
                push_decimal(&mut message, *actual as u64);
                message.append(" events; the maximum is ");
                push_decimal(&mut message, *maximum as u64);
            },
            AgentError::InputApplicationPending { sequence } => {
                message.append("input batch ");
                push_decimal(&mut message, *sequence as u64);
                message.append(" is still awaiting native application");
            },
            AgentError::NoInputApplicationPending => {
                message.append("there is no input batch awaiting native application");
            },
            AgentError::AppliedSequenceMismatch { expected, received } => {
                message.append("applied input sequence ");
                push_decimal(&mut message, *received as u64);
                message.append(" does not match pending sequence ");
                push_decimal(&mut message, *expected as u64);
            },
            AgentError::UnexpectedAcknowledgement => {
                message.append("an input acknowledgement is not valid on an agent session");
            },
            AgentError::UnexpectedDisplayChange => {
                message.append("a display change is not valid from a controller");
            },
        }
        assert(message@ =~= self.text());
        message
    }
}

} // verus!
