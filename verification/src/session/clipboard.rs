//! Clipboard synchronization with one peer.

use vstd::prelude::*;
use vstd::string::*;

use crate::domain::identity::NodeId;
use crate::domain::nonzero::NonZeroU64;
use crate::protocol::clipboard::{
    ClipboardControl, ClipboardError, ClipboardGeneration, ClipboardOffer, ClipboardText,
};
use crate::text::push_decimal;

verus! {

/// Sends local clipboard changes and applies those of one peer, newest first
/// and one at a time.
#[derive(Debug)]
pub struct ClipboardSession {
    local_node: NodeId,
    peer_node: NodeId,
    next_local_sequence: Option<NonZeroU64>,
    last_sent_local_sequence: u64,
    last_acknowledged_local_sequence: u64,
    last_applied_remote_sequence: u64,
    highest_remote_sequence: u64,
    pending_local: Option<ClipboardGeneration>,
    incoming: Option<IncomingClipboard>,
    applying: Option<IncomingClipboard>,
    remote_text: Option<String>,
}

/// A remote generation of which the offer, the transfer or both have arrived.
#[derive(Debug)]
struct IncomingClipboard {
    generation: ClipboardGeneration,
    offer: Option<ClipboardOffer>,
    transfer: Option<ClipboardText>,
}

pub ghost struct IncomingView {
    pub generation: crate::protocol::clipboard::GenerationView,
    pub offer: Option<crate::protocol::clipboard::OfferView>,
    pub transfer: Option<crate::protocol::clipboard::TextView>,
}

impl View for IncomingClipboard {
    type V = IncomingView;

    closed spec fn view(&self) -> IncomingView {
        IncomingView {
            generation: self.generation@,
            offer: match self.offer {
                Some(offer) => Some(offer@),
                None => None,
            },
            transfer: match self.transfer {
                Some(transfer) => Some(transfer@),
                None => None,
            },
        }
    }
}

impl IncomingView {
    /// Nothing of the generation has arrived.
    pub open spec fn empty(
        generation: crate::protocol::clipboard::GenerationView,
    ) -> IncomingView {
        IncomingView { generation, offer: None, transfer: None }
    }

    /// Offer and transfer have both arrived.
    pub open spec fn is_complete(self) -> bool {
        self.offer is Some && self.transfer is Some
    }

    /// What has arrived belongs to the generation and matches.
    pub open spec fn is_consistent(self) -> bool {
        &&& self.offer matches Some(offer) ==> offer.generation == self.generation
        &&& self.transfer matches Some(transfer) ==> transfer.generation == self.generation
        &&& self.is_complete() ==> self.offer->Some_0.mismatch(self.transfer->Some_0) is None
    }
}

pub ghost struct ClipboardView {
    pub local_node: Seq<char>,
    pub peer_node: Seq<char>,
    /// The sequence of the next local change.
    pub next_local: Option<u64>,
    pub last_sent: u64,
    pub last_acknowledged: u64,
    /// The sequence of the last remote text that was applied and confirmed.
    pub last_applied: u64,
    /// The highest remote sequence that was seen.
    pub highest_remote: u64,
    /// The local change that the peer has not confirmed.
    pub pending_local: Option<crate::protocol::clipboard::GenerationView>,
    pub incoming: Option<IncomingView>,
    /// The remote text that the native clipboard is taking.
    pub applying: Option<IncomingView>,
    /// The remote text that was applied last and not replaced since.
    pub remote_text: Option<Seq<char>>,
}

impl View for ClipboardSession {
    type V = ClipboardView;

    closed spec fn view(&self) -> ClipboardView {
        ClipboardView {
            local_node: self.local_node@,
            peer_node: self.peer_node@,
            next_local: match self.next_local_sequence {
                Some(sequence) => Some(sequence@),
                None => None,
            },
            last_sent: self.last_sent_local_sequence,
            last_acknowledged: self.last_acknowledged_local_sequence,
            last_applied: self.last_applied_remote_sequence,
            highest_remote: self.highest_remote_sequence,
            pending_local: match self.pending_local {
                Some(generation) => Some(generation@),
                None => None,
            },
            incoming: match self.incoming {
                Some(incoming) => Some(incoming@),
                None => None,
            },
            applying: match self.applying {
                Some(applying) => Some(applying@),
                None => None,
            },
            remote_text: crate::domain::display::optional_text(self.remote_text),
        }
    }
}

impl ClipboardView {
    /// The generation of the text that the native clipboard is taking.
    pub open spec fn pending_generation(self) -> Option<
        crate::protocol::clipboard::GenerationView,
    > {
        match self.applying {
            Some(applying) => Some(applying.generation),
            None => None,
        }
    }

    /// What holds in every state of a clipboard session.
    pub open spec fn is_valid(self) -> bool {
        &&& self.last_applied <= self.highest_remote
        &&& self.last_acknowledged <= self.last_sent
        &&& self.next_local matches Some(next) ==> self.last_sent < next
        &&& self.pending_local matches Some(generation) ==> generation.owner == self.local_node
            && self.last_acknowledged < generation.sequence <= self.last_sent
        &&& self.incoming matches Some(incoming) ==> {
            &&& incoming.generation.owner == self.peer_node
            &&& incoming.generation.sequence == self.highest_remote
            &&& incoming.is_consistent()
            &&& incoming.is_complete() ==> self.applying is Some
        }
        &&& self.applying matches Some(applying) ==> {
            &&& applying.generation.owner == self.peer_node
            &&& self.last_applied < applying.generation.sequence <= self.highest_remote
            &&& applying.is_complete()
            &&& applying.is_consistent()
            &&& self.incoming matches Some(incoming) ==> applying.generation.sequence
                < incoming.generation.sequence
        }
    }
}

/// A session in which nothing has happened.
pub open spec fn initial(local_node: Seq<char>, peer_node: Seq<char>) -> ClipboardView {
    ClipboardView {
        local_node,
        peer_node,
        next_local: Some(1),
        last_sent: 0,
        last_acknowledged: 0,
        last_applied: 0,
        highest_remote: 0,
        pending_local: None,
        incoming: None,
        applying: None,
        remote_text: None,
    }
}

pub ghost enum ActionView {
    SendControl(crate::protocol::clipboard::ControlView),
    SendTransfer(crate::protocol::clipboard::TextView),
    ApplyRemote(crate::protocol::clipboard::TextView),
}

#[allow(inconsistent_fields)]
pub ghost enum ErrorView {
    Clipboard(ClipboardError),
    LocalSequenceExhausted,
    UnexpectedGenerationOwner { expected: Seq<char>, received: Seq<char> },
    AcknowledgementBeyondSent { acknowledged: u64, last_sent: u64 },
    ConflictingOffer(crate::protocol::clipboard::GenerationView),
    ConflictingTransfer(crate::protocol::clipboard::GenerationView),
    NoApplicationPending,
    ApplicationGenerationMismatch {
        expected: crate::protocol::clipboard::GenerationView,
        received: crate::protocol::clipboard::GenerationView,
    },
    StateInvariant,
}

/// The outcome of a step: the next state and what is done or refused.
pub ghost struct ClipboardStep {
    pub state: ClipboardView,
    pub outcome: Result<Seq<ActionView>, ErrorView>,
}

pub open spec fn done(state: ClipboardView, actions: Seq<ActionView>) -> ClipboardStep {
    ClipboardStep { state, outcome: Ok(actions) }
}

pub open spec fn refused(state: ClipboardView, error: ErrorView) -> ClipboardStep {
    ClipboardStep { state, outcome: Err(error) }
}

/// How a session takes a change of the local clipboard. The text that was last
/// applied for the peer is no change of its own.
pub open spec fn local_step(state: ClipboardView, text: Seq<char>) -> ClipboardStep {
    if state.remote_text == Some(text) {
        done(state, seq![])
    } else {
        match state.next_local {
            None => refused(state, ErrorView::LocalSequenceExhausted),
            Some(sequence) => {
                let generation = crate::protocol::clipboard::GenerationView {
                    owner: state.local_node,
                    sequence,
                };
                let transfer = crate::protocol::clipboard::TextView { generation, text };
                match crate::protocol::clipboard::text_length_fault(
                    transfer.bytes().len() as int,
                ) {
                    Some(error) => refused(state, ErrorView::Clipboard(error)),
                    None => done(
                        ClipboardView {
                            next_local: if sequence == u64::MAX {
                                None
                            } else {
                                Some((sequence + 1) as u64)
                            },
                            last_sent: sequence,
                            pending_local: Some(generation),
                            remote_text: None,
                            ..state
                        },
                        seq![
                            ActionView::SendControl(
                                crate::protocol::clipboard::ControlView::Offered(
                                    transfer.announced(),
                                ),
                            ),
                            ActionView::SendTransfer(transfer),
                        ],
                    ),
                }
            },
        }
    }
}

/// The generation is older than one that was seen, or was applied already.
pub open spec fn is_stale(state: ClipboardView, sequence: u64) -> bool {
    sequence <= state.last_applied || sequence < state.highest_remote
}

/// The generation is the one that is being applied.
pub open spec fn is_being_applied(
    state: ClipboardView,
    generation: crate::protocol::clipboard::GenerationView,
) -> bool {
    state.applying matches Some(applying) && applying.generation == generation
}

/// What has arrived of a generation that is neither stale nor being applied.
pub open spec fn arrived(
    state: ClipboardView,
    generation: crate::protocol::clipboard::GenerationView,
) -> IncomingView {
    match state.incoming {
        Some(incoming) => if generation.sequence > state.highest_remote {
            IncomingView::empty(generation)
        } else {
            incoming
        },
        None => IncomingView::empty(generation),
    }
}

/// The state once a generation that is neither stale nor being applied has
/// been heard of.
pub open spec fn heard_of(
    state: ClipboardView,
    generation: crate::protocol::clipboard::GenerationView,
) -> ClipboardView {
    ClipboardView {
        highest_remote: generation.sequence,
        incoming: Some(arrived(state, generation)),
        ..state
    }
}

/// How a session goes on once more has arrived of the newest generation.
pub open spec fn arrival_step(state: ClipboardView, incoming: IncomingView) -> ClipboardStep {
    if incoming.is_complete() && incoming.offer->Some_0.mismatch(
        incoming.transfer->Some_0,
    ) is Some {
        refused(
            ClipboardView { incoming: None, ..state },
            ErrorView::Clipboard(
                incoming.offer->Some_0.mismatch(incoming.transfer->Some_0)->Some_0,
            ),
        )
    } else if state.applying is None && incoming.is_complete() {
        done(
            ClipboardView { incoming: None, applying: Some(incoming), ..state },
            seq![ActionView::ApplyRemote(incoming.transfer->Some_0)],
        )
    } else {
        done(ClipboardView { incoming: Some(incoming), ..state }, seq![])
    }
}

/// How a session takes an offer of the peer.
pub open spec fn offer_step(
    state: ClipboardView,
    offer: crate::protocol::clipboard::OfferView,
) -> ClipboardStep {
    let generation = offer.generation;
    if generation.owner != state.peer_node {
        refused(
            state,
            ErrorView::UnexpectedGenerationOwner {
                expected: state.peer_node,
                received: generation.owner,
            },
        )
    } else if is_stale(state, generation.sequence) {
        done(state, seq![])
    } else if is_being_applied(state, generation) {
        if state.applying->Some_0.offer == Some(offer) {
            done(state, seq![])
        } else {
            refused(state, ErrorView::ConflictingOffer(generation))
        }
    } else {
        let next = heard_of(state, generation);
        let incoming = arrived(state, generation);
        match incoming.offer {
            Some(existing) => if existing != offer {
                refused(next, ErrorView::ConflictingOffer(generation))
            } else {
                done(next, seq![])
            },
            None => arrival_step(next, IncomingView { offer: Some(offer), ..incoming }),
        }
    }
}

/// How a session takes a transfer of the peer.
pub open spec fn transfer_step(
    state: ClipboardView,
    transfer: crate::protocol::clipboard::TextView,
) -> ClipboardStep {
    let generation = transfer.generation;
    if generation.owner != state.peer_node {
        refused(
            state,
            ErrorView::UnexpectedGenerationOwner {
                expected: state.peer_node,
                received: generation.owner,
            },
        )
    } else if is_stale(state, generation.sequence) {
        done(state, seq![])
    } else if is_being_applied(state, generation) {
        if state.applying->Some_0.transfer == Some(transfer) {
            done(state, seq![])
        } else {
            refused(state, ErrorView::ConflictingTransfer(generation))
        }
    } else {
        let next = heard_of(state, generation);
        let incoming = arrived(state, generation);
        match incoming.transfer {
            Some(existing) => if existing != transfer {
                refused(next, ErrorView::ConflictingTransfer(generation))
            } else {
                done(next, seq![])
            },
            None => arrival_step(next, IncomingView { transfer: Some(transfer), ..incoming }),
        }
    }
}

/// How a session takes the peer's confirmation that a text was applied.
pub open spec fn acknowledgement_step(
    state: ClipboardView,
    generation: crate::protocol::clipboard::GenerationView,
) -> ClipboardStep {
    if generation.owner != state.local_node {
        refused(
            state,
            ErrorView::UnexpectedGenerationOwner {
                expected: state.local_node,
                received: generation.owner,
            },
        )
    } else if generation.sequence > state.last_sent {
        refused(
            state,
            ErrorView::AcknowledgementBeyondSent {
                acknowledged: generation.sequence,
                last_sent: state.last_sent,
            },
        )
    } else if generation.sequence <= state.last_acknowledged {
        done(state, seq![])
    } else {
        done(
            ClipboardView {
                last_acknowledged: generation.sequence,
                pending_local: match state.pending_local {
                    Some(pending) => if pending.sequence <= generation.sequence {
                        None
                    } else {
                        Some(pending)
                    },
                    None => None,
                },
                ..state
            },
            seq![],
        )
    }
}

/// How a session takes a clipboard message of the control stream.
pub open spec fn control_step(
    state: ClipboardView,
    control: crate::protocol::clipboard::ControlView,
) -> ClipboardStep {
    match control {
        crate::protocol::clipboard::ControlView::Offered(offer) => offer_step(state, offer),
        crate::protocol::clipboard::ControlView::Applied { generation } => acknowledgement_step(
            state,
            generation,
        ),
    }
}

/// How a session takes the confirmation that the native clipboard has taken a
/// remote text.
pub open spec fn confirmation_step(
    state: ClipboardView,
    generation: crate::protocol::clipboard::GenerationView,
) -> ClipboardStep {
    match state.applying {
        None => refused(state, ErrorView::NoApplicationPending),
        Some(applying) => if applying.generation != generation {
            refused(
                state,
                ErrorView::ApplicationGenerationMismatch {
                    expected: applying.generation,
                    received: generation,
                },
            )
        } else {
            let applied = ActionView::SendControl(
                crate::protocol::clipboard::ControlView::Applied { generation },
            );
            let confirmed = ClipboardView {
                last_applied: generation.sequence,
                applying: None,
                remote_text: Some(applying.transfer->Some_0.text),
                ..state
            };
            match state.incoming {
                Some(incoming) => if incoming.is_complete() {
                    done(
                        ClipboardView { incoming: None, applying: Some(incoming), ..confirmed },
                        seq![applied, ActionView::ApplyRemote(incoming.transfer->Some_0)],
                    )
                } else {
                    done(confirmed, seq![applied])
                },
                None => done(confirmed, seq![applied]),
            }
        },
    }
}

pub open spec fn action_views(actions: Seq<ClipboardAction>) -> Seq<ActionView> {
    actions.map_values(|action: ClipboardAction| action@)
}

/// What came of a step, in the terms of the model.
pub open spec fn outcome_of(
    result: Result<Vec<ClipboardAction>, ClipboardSessionError>,
) -> Result<Seq<ActionView>, ErrorView> {
    match result {
        Ok(actions) => Ok(action_views(actions@)),
        Err(error) => Err(error@),
    }
}

fn nothing() -> (actions: Vec<ClipboardAction>)
    ensures
        action_views(actions@) == Seq::<ActionView>::empty(),
{
    let actions: Vec<ClipboardAction> = Vec::new();
    assert(action_views(actions@) =~= Seq::<ActionView>::empty());
    actions
}

#[derive(Clone, Copy, Debug, PartialEq, Eq, Structural)]
enum Stage {
    Ignore,
    Applying,
    Incoming,
}

impl ClipboardSession {
    #[verifier::type_invariant]
    closed spec fn is_valid(self) -> bool {
        self@.is_valid()
    }

    pub fn new(local_node: NodeId, peer_node: NodeId) -> (session: ClipboardSession)
        ensures
            session@ == initial(local_node@, peer_node@),
            session@.is_valid(),
    {
        ClipboardSession {
            local_node,
            peer_node,
            next_local_sequence: Some(NonZeroU64::min_value()),
            last_sent_local_sequence: 0,
            last_acknowledged_local_sequence: 0,
            last_applied_remote_sequence: 0,
            highest_remote_sequence: 0,
            pending_local: None,
            incoming: None,
            applying: None,
            remote_text: None,
        }
    }

    /// Takes a change of the local clipboard.
    pub fn local_changed(&mut self, text: String) -> (result: Result<
        Vec<ClipboardAction>,
        ClipboardSessionError,
    >)
        ensures
            (ClipboardStep { state: final(self)@, outcome: outcome_of(result) }) == local_step(
                old(self)@,
                text@,
            ),
            old(self)@.is_valid(),
            final(self)@.is_valid(),
    {
        proof {
            use_type_invariant(&*self);
        }
        let echo = match &self.remote_text {
            Some(remote) => *remote == text,
            None => false,
        };
        if echo {
            return Ok(nothing());
        }
        let sequence = match self.next_local_sequence {
            Some(sequence) => sequence,
            None => {
                return Err(ClipboardSessionError::LocalSequenceExhausted);
            },
        };
        let generation = ClipboardGeneration::new(self.local_node.clone(), sequence);
        let transfer = match ClipboardText::new(generation.clone(), text) {
            Ok(transfer) => transfer,
            Err(error) => {
                return Err(ClipboardSessionError::Clipboard(error));
            },
        };
        let sent: u64 = sequence.get();
        let next = match sent.checked_add(1) {
            Some(next) => NonZeroU64::new(next),
            None => None,
        };
        self.next_local_sequence = next;
        self.last_sent_local_sequence = sent;
        self.pending_local = Some(generation);
        self.remote_text = None;
        let offer = transfer.offer();
        let actions = vec![
            ClipboardAction::SendControl(ClipboardControl::Offered(offer)),
            ClipboardAction::SendTransfer(transfer),
        ];
        proof {
            assert(action_views(actions@) =~= local_step(old(self)@, text@).outcome->Ok_0);
        }
        Ok(actions)
    }

    /// Takes a clipboard message of the control stream.
    pub fn receive_control(&mut self, control: ClipboardControl) -> (result: Result<
        Vec<ClipboardAction>,
        ClipboardSessionError,
    >)
        ensures
            (ClipboardStep { state: final(self)@, outcome: outcome_of(result) }) == control_step(
                old(self)@,
                control@,
            ),
            old(self)@.is_valid(),
            final(self)@.is_valid(),
    {
        match control {
            ClipboardControl::Offered(offer) => self.receive_offer(offer),
            ClipboardControl::Applied { generation } => match self.receive_acknowledgement(
                generation,
            ) {
                Ok(()) => Ok(nothing()),
                Err(error) => Err(error),
            },
        }
    }

    /// Takes a text of the clipboard stream.
    pub fn receive_transfer(&mut self, transfer: ClipboardText) -> (result: Result<
        Vec<ClipboardAction>,
        ClipboardSessionError,
    >)
        ensures
            (ClipboardStep { state: final(self)@, outcome: outcome_of(result) }) == transfer_step(
                old(self)@,
                transfer@,
            ),
            old(self)@.is_valid(),
            final(self)@.is_valid(),
    {
        proof {
            use_type_invariant(&*self);
        }
        let generation = transfer.generation().clone();
        match self.stage_generation(&generation) {
            Err(error) => {
                return Err(error);
            },
            Ok(Stage::Ignore) => {
                return Ok(nothing());
            },
            Ok(Stage::Applying) => {
                let repeated = match &self.applying {
                    Some(applying) => match &applying.transfer {
                        Some(existing) => *existing == transfer,
                        None => false,
                    },
                    None => {
                        return Err(ClipboardSessionError::StateInvariant);
                    },
                };
                return if repeated {
                    Ok(nothing())
                } else {
                    Err(ClipboardSessionError::ConflictingTransfer(generation))
                };
            },
            Ok(Stage::Incoming) => {},
        }
        let repeated = match &self.incoming {
            Some(incoming) => match &incoming.transfer {
                Some(existing) => Some(*existing == transfer),
                None => None,
            },
            None => {
                return Err(ClipboardSessionError::StateInvariant);
            },
        };
        match repeated {
            Some(true) => Ok(nothing()),
            Some(false) => Err(ClipboardSessionError::ConflictingTransfer(generation)),
            None => {
                let mut incoming = match take_slot(&mut self.incoming) {
                    Some(incoming) => incoming,
                    None => {
                        return Err(ClipboardSessionError::StateInvariant);
                    },
                };
                incoming.transfer = Some(transfer);
                self.finish_incoming(incoming)
            },
        }
    }

    /// Confirms that the native clipboard has taken a remote text.
    pub fn confirm_applied(&mut self, generation: &ClipboardGeneration) -> (result: Result<
        Vec<ClipboardAction>,
        ClipboardSessionError,
    >)
        ensures
            (ClipboardStep { state: final(self)@, outcome: outcome_of(result) })
                == confirmation_step(old(self)@, generation@),
            old(self)@.is_valid(),
            final(self)@.is_valid(),
    {
        proof {
            use_type_invariant(&*self);
        }
        match &self.applying {
            Some(applying) => {
                if applying.generation != *generation {
                    return Err(
                        ClipboardSessionError::ApplicationGenerationMismatch {
                            expected: applying.generation.clone(),
                            received: generation.clone(),
                        },
                    );
                }
            },
            None => {
                return Err(ClipboardSessionError::NoApplicationPending);
            },
        }
        let incoming = take_slot(&mut self.incoming);
        let applied = match take_slot(&mut self.applying) {
            Some(applied) => applied,
            None => {
                return Err(ClipboardSessionError::StateInvariant);
            },
        };
        let text = match applied.transfer {
            Some(transfer) => transfer.into_text(),
            None => {
                return Err(ClipboardSessionError::StateInvariant);
            },
        };
        self.last_applied_remote_sequence = generation.sequence.get();
        self.remote_text = Some(text);
        let mut actions = vec![
            ClipboardAction::SendControl(
                ClipboardControl::Applied { generation: generation.clone() },
            ),
        ];
        if let Some(incoming) = incoming {
            if let Some(action) = self.begin_application(incoming) {
                actions.push(action);
            }
        }
        proof {
            let expected = confirmation_step(old(self)@, generation@);
            assert(action_views(actions@) =~= expected.outcome->Ok_0);
        }
        Ok(actions)
    }

    /// The remote text that the native clipboard is taking.
    pub fn pending_application(&self) -> (generation: Option<&ClipboardGeneration>)
        ensures
            match generation {
                Some(generation) => self@.pending_generation() == Some(generation@),
                None => self@.pending_generation() is None,
            },
    {
        match &self.applying {
            Some(pending) => Some(&pending.generation),
            None => None,
        }
    }

    /// The local change that the peer has not confirmed.
    pub fn pending_local(&self) -> (generation: Option<&ClipboardGeneration>)
        ensures
            match generation {
                Some(generation) => self@.pending_local == Some(generation@),
                None => self@.pending_local is None,
            },
    {
        match &self.pending_local {
            Some(generation) => Some(generation),
            None => None,
        }
    }

    pub fn last_acknowledged_local_sequence(&self) -> (sequence: u64)
        ensures
            sequence == self@.last_acknowledged,
    {
        self.last_acknowledged_local_sequence
    }

    fn receive_offer(&mut self, offer: ClipboardOffer) -> (result: Result<
        Vec<ClipboardAction>,
        ClipboardSessionError,
    >)
        ensures
            (ClipboardStep { state: final(self)@, outcome: outcome_of(result) }) == offer_step(
                old(self)@,
                offer@,
            ),
            old(self)@.is_valid(),
            final(self)@.is_valid(),
    {
        proof {
            use_type_invariant(&*self);
        }
        let generation = offer.generation().clone();
        match self.stage_generation(&generation) {
            Err(error) => {
                return Err(error);
            },
            Ok(Stage::Ignore) => {
                return Ok(nothing());
            },
            Ok(Stage::Applying) => {
                let repeated = match &self.applying {
                    Some(applying) => match &applying.offer {
                        Some(existing) => *existing == offer,
                        None => false,
                    },
                    None => {
                        return Err(ClipboardSessionError::StateInvariant);
                    },
                };
                return if repeated {
                    Ok(nothing())
                } else {
                    Err(ClipboardSessionError::ConflictingOffer(generation))
                };
            },
            Ok(Stage::Incoming) => {},
        }
        let repeated = match &self.incoming {
            Some(incoming) => match &incoming.offer {
                Some(existing) => Some(*existing == offer),
                None => None,
            },
            None => {
                return Err(ClipboardSessionError::StateInvariant);
            },
        };
        match repeated {
            Some(true) => Ok(nothing()),
            Some(false) => Err(ClipboardSessionError::ConflictingOffer(generation)),
            None => {
                let mut incoming = match take_slot(&mut self.incoming) {
                    Some(incoming) => incoming,
                    None => {
                        return Err(ClipboardSessionError::StateInvariant);
                    },
                };
                incoming.offer = Some(offer);
                self.finish_incoming(incoming)
            },
        }
    }

    fn receive_acknowledgement(&mut self, generation: ClipboardGeneration) -> (result: Result<
        (),
        ClipboardSessionError,
    >)
        ensures
            ({
                let expected = acknowledgement_step(old(self)@, generation@);
                &&& final(self)@ == expected.state
                &&& match result {
                    Ok(()) => expected.outcome == Ok::<Seq<ActionView>, ErrorView>(seq![]),
                    Err(error) => expected.outcome == Err::<Seq<ActionView>, ErrorView>(error@),
                }
            }),
            old(self)@.is_valid(),
            final(self)@.is_valid(),
    {
        proof {
            use_type_invariant(&*self);
        }
        if generation.owner != self.local_node {
            return Err(
                ClipboardSessionError::UnexpectedGenerationOwner {
                    expected: self.local_node.clone(),
                    received: generation.owner,
                },
            );
        }
        let sequence: u64 = generation.sequence.get();
        if sequence > self.last_sent_local_sequence {
            return Err(
                ClipboardSessionError::AcknowledgementBeyondSent {
                    acknowledged: sequence,
                    last_sent: self.last_sent_local_sequence,
                },
            );
        }
        if sequence <= self.last_acknowledged_local_sequence {
            return Ok(());
        }
        let delivered = match &self.pending_local {
            Some(pending) => pending.sequence.get() <= sequence,
            None => false,
        };
        if delivered {
            self.pending_local = None;
        }
        self.last_acknowledged_local_sequence = sequence;
        Ok(())
    }

    fn stage_generation(&mut self, generation: &ClipboardGeneration) -> (result: Result<
        Stage,
        ClipboardSessionError,
    >)
        ensures
            match result {
                Err(error) => generation@.owner != old(self)@.peer_node && error@ == (
                ErrorView::UnexpectedGenerationOwner {
                    expected: old(self)@.peer_node,
                    received: generation@.owner,
                }) && final(self)@ == old(self)@,
                Ok(stage) => generation@.owner == old(self)@.peer_node && match stage {
                    Stage::Ignore => is_stale(old(self)@, generation@.sequence) && final(self)@
                        == old(self)@,
                    Stage::Applying => !is_stale(old(self)@, generation@.sequence)
                        && is_being_applied(old(self)@, generation@) && final(self)@ == old(self)@,
                    Stage::Incoming => !is_stale(old(self)@, generation@.sequence)
                        && !is_being_applied(old(self)@, generation@) && final(self)@ == heard_of(
                        old(self)@,
                        generation@,
                    ),
                },
            },
            final(self)@.is_valid(),
    {
        proof {
            use_type_invariant(&*self);
        }
        if generation.owner != self.peer_node {
            return Err(
                ClipboardSessionError::UnexpectedGenerationOwner {
                    expected: self.peer_node.clone(),
                    received: generation.owner.clone(),
                },
            );
        }
        let sequence: u64 = generation.sequence.get();
        if sequence <= self.last_applied_remote_sequence || sequence
            < self.highest_remote_sequence {
            return Ok(Stage::Ignore);
        }
        let being_applied = match &self.applying {
            Some(pending) => pending.generation == *generation,
            None => false,
        };
        if being_applied {
            return Ok(Stage::Applying);
        }
        if sequence > self.highest_remote_sequence {
            self.incoming = None;
            self.highest_remote_sequence = sequence;
            self.incoming = Some(IncomingClipboard::new(generation.clone()));
        } else if self.incoming.is_none() {
            self.incoming = Some(IncomingClipboard::new(generation.clone()));
        }
        Ok(Stage::Incoming)
    }

    fn finish_incoming(&mut self, incoming: IncomingClipboard) -> (result: Result<
        Vec<ClipboardAction>,
        ClipboardSessionError,
    >)
        requires
            old(self)@.incoming is None,
            incoming@.generation.owner == old(self)@.peer_node,
            incoming@.generation.sequence == old(self)@.highest_remote,
            old(self)@.last_applied < incoming@.generation.sequence,
            !is_being_applied(old(self)@, incoming@.generation),
            incoming@.offer matches Some(offer) ==> offer.generation == incoming@.generation,
            incoming@.transfer matches Some(transfer) ==> transfer.generation
                == incoming@.generation,
        ensures
            (ClipboardStep { state: final(self)@, outcome: outcome_of(result) }) == arrival_step(
                old(self)@,
                incoming@,
            ),
            final(self)@.is_valid(),
    {
        proof {
            use_type_invariant(&*self);
        }
        match incoming.verify() {
            Ok(()) => {},
            Err(error) => {
                return Err(ClipboardSessionError::Clipboard(error));
            },
        }
        if self.applying.is_some() {
            self.incoming = Some(incoming);
            return Ok(nothing());
        }
        let mut actions: Vec<ClipboardAction> = Vec::new();
        if let Some(action) = self.begin_application(incoming) {
            actions.push(action);
        }
        proof {
            let expected = arrival_step(old(self)@, incoming@);
            assert(action_views(actions@) =~= expected.outcome->Ok_0);
        }
        Ok(actions)
    }

    fn begin_application(&mut self, incoming: IncomingClipboard) -> (action: Option<
        ClipboardAction,
    >)
        requires
            old(self)@.incoming is None,
            old(self)@.applying is None,
            incoming@.generation.owner == old(self)@.peer_node,
            incoming@.generation.sequence == old(self)@.highest_remote,
            old(self)@.last_applied < incoming@.generation.sequence,
            incoming@.is_consistent(),
        ensures
            if incoming@.is_complete() {
                &&& final(self)@ == (ClipboardView { applying: Some(incoming@), ..old(self)@ })
                &&& action matches Some(action) && action@ == ActionView::ApplyRemote(
                    incoming@.transfer->Some_0,
                )
            } else {
                &&& final(self)@ == (ClipboardView { incoming: Some(incoming@), ..old(self)@ })
                &&& action is None
            },
            final(self)@.is_valid(),
    {
        proof {
            use_type_invariant(&*self);
        }
        let ready = match &incoming.transfer {
            Some(transfer) => if incoming.offer.is_some() {
                Some(transfer.clone())
            } else {
                None
            },
            None => None,
        };
        match ready {
            Some(transfer) => {
                self.applying = Some(incoming);
                Some(ClipboardAction::ApplyRemote(transfer))
            },
            None => {
                self.incoming = Some(incoming);
                None
            },
        }
    }
}

fn take_slot(slot: &mut Option<IncomingClipboard>) -> (taken: Option<IncomingClipboard>)
    ensures
        taken == *old(slot),
        *final(slot) is None,
    no_unwind
{
    let mut taken: Option<IncomingClipboard> = None;
    std::mem::swap(slot, &mut taken);
    taken
}

impl IncomingClipboard {
    fn new(generation: ClipboardGeneration) -> (incoming: IncomingClipboard)
        ensures
            incoming@ == IncomingView::empty(generation@),
    {
        IncomingClipboard { generation, offer: None, transfer: None }
    }

    fn verify(&self) -> (result: Result<(), ClipboardError>)
        ensures
            result == if self@.is_complete() {
                match self@.offer->Some_0.mismatch(self@.transfer->Some_0) {
                    Some(error) => Err::<(), ClipboardError>(error),
                    None => Ok(()),
                }
            } else {
                Ok(())
            },
    {
        if let (Some(offer), Some(transfer)) = (&self.offer, &self.transfer) {
            return offer.verify(transfer);
        }
        Ok(())
    }
}

#[derive(Debug, PartialEq, Eq)]
pub enum ClipboardAction {
    SendControl(ClipboardControl),
    SendTransfer(ClipboardText),
    ApplyRemote(ClipboardText),
}

impl View for ClipboardAction {
    type V = ActionView;

    open spec fn view(&self) -> ActionView {
        match self {
            ClipboardAction::SendControl(control) => ActionView::SendControl(control@),
            ClipboardAction::SendTransfer(transfer) => ActionView::SendTransfer(transfer@),
            ClipboardAction::ApplyRemote(transfer) => ActionView::ApplyRemote(transfer@),
        }
    }
}

/// Why a session refuses a clipboard message, text or confirmation.
#[allow(inconsistent_fields)]
#[derive(Debug, PartialEq, Eq)]
pub enum ClipboardSessionError {
    Clipboard(ClipboardError),
    LocalSequenceExhausted,
    UnexpectedGenerationOwner { expected: NodeId, received: NodeId },
    AcknowledgementBeyondSent { acknowledged: u64, last_sent: u64 },
    ConflictingOffer(ClipboardGeneration),
    ConflictingTransfer(ClipboardGeneration),
    NoApplicationPending,
    ApplicationGenerationMismatch { expected: ClipboardGeneration, received: ClipboardGeneration },
    StateInvariant,
}

impl View for ClipboardSessionError {
    type V = ErrorView;

    open spec fn view(&self) -> ErrorView {
        match self {
            ClipboardSessionError::Clipboard(error) => ErrorView::Clipboard(*error),
            ClipboardSessionError::LocalSequenceExhausted => ErrorView::LocalSequenceExhausted,
            ClipboardSessionError::UnexpectedGenerationOwner { expected, received } => {
                ErrorView::UnexpectedGenerationOwner { expected: expected@, received: received@ }
            },
            ClipboardSessionError::AcknowledgementBeyondSent { acknowledged, last_sent } => {
                ErrorView::AcknowledgementBeyondSent {
                    acknowledged: *acknowledged,
                    last_sent: *last_sent,
                }
            },
            ClipboardSessionError::ConflictingOffer(generation) => ErrorView::ConflictingOffer(
                generation@,
            ),
            ClipboardSessionError::ConflictingTransfer(generation) => {
                ErrorView::ConflictingTransfer(generation@)
            },
            ClipboardSessionError::NoApplicationPending => ErrorView::NoApplicationPending,
            ClipboardSessionError::ApplicationGenerationMismatch { expected, received } => {
                ErrorView::ApplicationGenerationMismatch {
                    expected: expected@,
                    received: received@,
                }
            },
            ClipboardSessionError::StateInvariant => ErrorView::StateInvariant,
        }
    }
}

/// Something that happens to a clipboard session.
pub ghost enum ClipboardEvent {
    LocalChange { text: Seq<char> },
    Control(crate::protocol::clipboard::ControlView),
    Transfer(crate::protocol::clipboard::TextView),
    Confirmation { generation: crate::protocol::clipboard::GenerationView },
}

pub open spec fn step(state: ClipboardView, event: ClipboardEvent) -> ClipboardStep {
    match event {
        ClipboardEvent::LocalChange { text } => local_step(state, text),
        ClipboardEvent::Control(control) => control_step(state, control),
        ClipboardEvent::Transfer(transfer) => transfer_step(state, transfer),
        ClipboardEvent::Confirmation { generation } => confirmation_step(state, generation),
    }
}

/// The event makes the session take this action.
pub open spec fn acts(state: ClipboardView, event: ClipboardEvent, action: ActionView) -> bool {
    step(state, event).outcome matches Ok(actions) && actions.contains(action)
}

/// Every event leads from a valid state to a valid state.
pub proof fn law_clipboard_states_stay_valid(state: ClipboardView, event: ClipboardEvent)
    requires
        state.is_valid(),
    ensures
        step(state, event).state.is_valid(),
{
}

/// No event brings a valid session to report that its state is broken.
pub proof fn law_state_invariant_is_never_reported(state: ClipboardView, event: ClipboardEvent)
    requires
        state.is_valid(),
    ensures
        step(state, event).outcome != Err::<Seq<ActionView>, ErrorView>(
            ErrorView::StateInvariant,
        ),
{
}

/// A remote text is handed to the native clipboard only if it comes from the
/// peer, is newer than all that was applied, matches its offer in generation,
/// length and digest, and nothing else is being applied.
pub proof fn law_only_verified_text_is_applied(
    state: ClipboardView,
    event: ClipboardEvent,
    transfer: crate::protocol::clipboard::TextView,
)
    requires
        state.is_valid(),
        acts(state, event, ActionView::ApplyRemote(transfer)),
    ensures
        transfer.generation.owner == state.peer_node,
        transfer.generation.sequence > state.last_applied,
        step(state, event).state.applying matches Some(applying) && applying.transfer == Some(
            transfer,
        ) && (applying.offer matches Some(offer) && offer.mismatch(transfer) is None),
        state.applying is None || event is Confirmation,
{
    let actions = step(state, event).outcome->Ok_0;
    let i = choose|i: int|
        0 <= i < actions.len() && actions[i] == ActionView::ApplyRemote(transfer);
    assert(actions[i] == ActionView::ApplyRemote(transfer));
}

/// A remote text is reported as applied only when the native clipboard has
/// confirmed the text that was being applied.
pub proof fn law_only_confirmed_text_is_acknowledged(
    state: ClipboardView,
    event: ClipboardEvent,
    generation: crate::protocol::clipboard::GenerationView,
)
    requires
        state.is_valid(),
        acts(
            state,
            event,
            ActionView::SendControl(
                crate::protocol::clipboard::ControlView::Applied { generation },
            ),
        ),
    ensures
        event == (ClipboardEvent::Confirmation { generation }),
        is_being_applied(state, generation),
        step(state, event).state.last_applied == generation.sequence,
{
    let wanted = ActionView::SendControl(
        crate::protocol::clipboard::ControlView::Applied { generation },
    );
    let actions = step(state, event).outcome->Ok_0;
    let i = choose|i: int| 0 <= i < actions.len() && actions[i] == wanted;
    assert(actions[i] == wanted);
}

/// Offer and transfer may arrive in either order: the second of them makes the
/// session apply the text, and the state is then the same.
pub proof fn law_arrival_order_does_not_matter(
    state: ClipboardView,
    transfer: crate::protocol::clipboard::TextView,
)
    requires
        state.is_valid(),
        transfer.fits(),
        transfer.generation.owner == state.peer_node,
        transfer.generation.sequence > state.highest_remote,
        state.applying is None,
    ensures
        ({
            let offer = transfer.announced();
            let offer_first = transfer_step(offer_step(state, offer).state, transfer);
            let transfer_first = offer_step(transfer_step(state, transfer).state, offer);
            &&& offer_first == transfer_first
            &&& offer_first.outcome == Ok::<Seq<ActionView>, ErrorView>(
                seq![ActionView::ApplyRemote(transfer)],
            )
        }),
{
}

/// What arrives of a generation older than one that was seen changes nothing.
pub proof fn law_stale_generations_are_ignored(
    state: ClipboardView,
    offer: crate::protocol::clipboard::OfferView,
    transfer: crate::protocol::clipboard::TextView,
)
    requires
        offer.generation.owner == state.peer_node,
        offer.generation.sequence < state.highest_remote,
        transfer.generation.owner == state.peer_node,
        transfer.generation.sequence < state.highest_remote,
    ensures
        offer_step(state, offer) == done(state, seq![]),
        transfer_step(state, transfer) == done(state, seq![]),
{
}

/// A text that was just applied for the peer is not sent back when the native
/// clipboard reports it.
pub proof fn law_remote_text_is_not_echoed(
    state: ClipboardView,
    generation: crate::protocol::clipboard::GenerationView,
)
    requires
        state.is_valid(),
        is_being_applied(state, generation),
    ensures
        ({
            let confirmed = confirmation_step(state, generation).state;
            local_step(confirmed, state.applying->Some_0.transfer->Some_0.text) == done(
                confirmed,
                seq![],
            )
        }),
{
}

/// A local change goes out as an offer followed by its text, which the peer
/// applies; its confirmation reaches the sender as the acknowledgement of that
/// change, and nothing is pending then.
pub proof fn law_local_changes_are_delivered(
    sender: ClipboardView,
    receiver: ClipboardView,
    text: Seq<char>,
)
    requires
        sender.is_valid(),
        receiver.is_valid(),
        sender.local_node == receiver.peer_node,
        sender.remote_text != Some(text),
        sender.next_local matches Some(sequence) && sequence > receiver.highest_remote,
        receiver.applying is None,
        vstd::utf8::encode_utf8(text).len()
            <= crate::protocol::clipboard::MAX_CLIPBOARD_TEXT_BYTES,
    ensures
        ({
            let generation = crate::protocol::clipboard::GenerationView {
                owner: sender.local_node,
                sequence: sender.next_local->Some_0,
            };
            let transfer = crate::protocol::clipboard::TextView { generation, text };
            let sent = local_step(sender, text);
            let offered = offer_step(receiver, transfer.announced());
            let received = transfer_step(offered.state, transfer);
            let confirmed = confirmation_step(received.state, generation);
            let acknowledged = acknowledgement_step(sent.state, generation);
            &&& sent.outcome == Ok::<Seq<ActionView>, ErrorView>(
                seq![
                    ActionView::SendControl(
                        crate::protocol::clipboard::ControlView::Offered(transfer.announced()),
                    ),
                    ActionView::SendTransfer(transfer),
                ],
            )
            &&& offered.outcome == Ok::<Seq<ActionView>, ErrorView>(seq![])
            &&& received.outcome == Ok::<Seq<ActionView>, ErrorView>(
                seq![ActionView::ApplyRemote(transfer)],
            )
            &&& confirmed.outcome == Ok::<Seq<ActionView>, ErrorView>(
                seq![
                    ActionView::SendControl(
                        crate::protocol::clipboard::ControlView::Applied { generation },
                    ),
                ],
            )
            &&& confirmed.state.remote_text == Some(text)
            &&& acknowledged.outcome == Ok::<Seq<ActionView>, ErrorView>(seq![])
            &&& acknowledged.state.last_acknowledged == generation.sequence
            &&& acknowledged.state.pending_local is None
        }),
{
}

impl ClipboardSessionError {
    /// The error in words.
    pub open spec fn text(self) -> Seq<char> {
        match self {
            ClipboardSessionError::Clipboard(error) => error.text(),
            ClipboardSessionError::LocalSequenceExhausted => {
                "local clipboard generation sequence is exhausted"@
            },
            ClipboardSessionError::UnexpectedGenerationOwner { expected, received } => {
                "clipboard generation belongs to `"@ + received@ + "`, expected `"@ + expected@
                    + "`"@
            },
            ClipboardSessionError::AcknowledgementBeyondSent { acknowledged, last_sent } => {
                "clipboard acknowledgement "@ + crate::text::decimal(acknowledged as nat)
                    + " exceeds last sent sequence "@ + crate::text::decimal(last_sent as nat)
            },
            ClipboardSessionError::ConflictingOffer(generation) => {
                "clipboard generation "@ + generation@.text() + " has conflicting offers"@
            },
            ClipboardSessionError::ConflictingTransfer(generation) => {
                "clipboard generation "@ + generation@.text() + " has conflicting transfers"@
            },
            ClipboardSessionError::NoApplicationPending => {
                "there is no clipboard application awaiting native confirmation"@
            },
            ClipboardSessionError::ApplicationGenerationMismatch { expected, received } => {
                "applied clipboard generation "@ + received@.text() + " does not match pending "@
                    + expected@.text()
            },
            ClipboardSessionError::StateInvariant => "clipboard state invariant was violated"@,
        }
    }

    /// The error in words.
    pub fn message(&self) -> (message: String)
        ensures
            message@ == self.text(),
    {
        let mut message = String::new();
        match self {
            ClipboardSessionError::Clipboard(error) => {
                message.append(error.message().as_str());
            },
            ClipboardSessionError::LocalSequenceExhausted => {
                message.append("local clipboard generation sequence is exhausted");
            },
            ClipboardSessionError::UnexpectedGenerationOwner { expected, received } => {
                message.append("clipboard generation belongs to `");
                message.append(received.as_str());
                message.append("`, expected `");
                message.append(expected.as_str());
                message.append("`");
            },
            ClipboardSessionError::AcknowledgementBeyondSent { acknowledged, last_sent } => {
                message.append("clipboard acknowledgement ");
                push_decimal(&mut message, *acknowledged as u64);
                message.append(" exceeds last sent sequence ");
                push_decimal(&mut message, *last_sent as u64);
            },
            ClipboardSessionError::ConflictingOffer(generation) => {
                message.append("clipboard generation ");
                generation.describe(&mut message);
                message.append(" has conflicting offers");
            },
            ClipboardSessionError::ConflictingTransfer(generation) => {
                message.append("clipboard generation ");
                generation.describe(&mut message);
                message.append(" has conflicting transfers");
            },
            ClipboardSessionError::NoApplicationPending => {
                message.append("there is no clipboard application awaiting native confirmation");
            },
            ClipboardSessionError::ApplicationGenerationMismatch { expected, received } => {
                message.append("applied clipboard generation ");
                received.describe(&mut message);
                message.append(" does not match pending ");
                expected.describe(&mut message);
            },
            ClipboardSessionError::StateInvariant => {
                message.append("clipboard state invariant was violated");
            },
        }
        assert(message@ =~= self.text());
        message
    }
}

} // verus!
