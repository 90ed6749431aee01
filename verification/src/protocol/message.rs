//! Messages between nodes.

use vstd::prelude::*;
use vstd::string::*;

use crate::domain::geometry::{Point, Size};
use crate::domain::host::HostPlatform;
use crate::domain::identity::NodeId;
use crate::domain::input::InputEvent;
use crate::domain::nonzero::NonZeroU32;
use crate::protocol::clipboard::{ClipboardControl, ClipboardError};
use crate::text::push_decimal;

verus! {

pub const CURRENT_PROTOCOL_MAJOR: u16 = 1;

pub const CURRENT_PROTOCOL_MINOR: u16 = 3;

pub const MAX_INPUT_EVENTS_PER_BATCH: usize = 512;

#[derive(Clone, Copy, Debug, PartialEq, Eq, Structural)]
pub struct ProtocolVersion {
    pub major: u16,
    pub minor: u16,
}

impl ProtocolVersion {
    pub open spec fn is_current_version(self) -> bool {
        self.major == CURRENT_PROTOCOL_MAJOR && self.minor == CURRENT_PROTOCOL_MINOR
    }

    /// The version that this node speaks.
    pub fn current() -> (version: ProtocolVersion)
        ensures
            version.is_current_version(),
    {
        ProtocolVersion { major: CURRENT_PROTOCOL_MAJOR, minor: CURRENT_PROTOCOL_MINOR }
    }

    /// There is intentionally no legacy compatibility layer.
    pub fn is_current(self) -> (result: bool)
        ensures
            result == self.is_current_version(),
    {
        self.major == CURRENT_PROTOCOL_MAJOR && self.minor == CURRENT_PROTOCOL_MINOR
    }
}

#[derive(Clone, Copy, Debug, PartialEq, Eq, Structural)]
pub struct Capabilities {
    pub keyboard: bool,
    pub relative_pointer: bool,
    pub absolute_pointer: bool,
    pub clipboard_text: bool,
}

impl Default for Capabilities {
    fn default() -> (capabilities: Capabilities)
        ensures
            capabilities == (Capabilities {
                keyboard: false,
                relative_pointer: false,
                absolute_pointer: false,
                clipboard_text: false,
            }),
    {
        Capabilities {
            keyboard: false,
            relative_pointer: false,
            absolute_pointer: false,
            clipboard_text: false,
        }
    }
}

impl Capabilities {
    /// What both sides can do.
    pub open spec fn shared_with(self, other: Capabilities) -> Capabilities {
        Capabilities {
            keyboard: self.keyboard && other.keyboard,
            relative_pointer: self.relative_pointer && other.relative_pointer,
            absolute_pointer: self.absolute_pointer && other.absolute_pointer,
            clipboard_text: self.clipboard_text && other.clipboard_text,
        }
    }

    /// What both sides can do.
    pub fn intersection(self, other: Capabilities) -> (capabilities: Capabilities)
        ensures
            capabilities == self.shared_with(other),
    {
        Capabilities {
            keyboard: self.keyboard && other.keyboard,
            relative_pointer: self.relative_pointer && other.relative_pointer,
            absolute_pointer: self.absolute_pointer && other.absolute_pointer,
            clipboard_text: self.clipboard_text && other.clipboard_text,
        }
    }
}

/// Both sides of a negotiation arrive at the same capabilities.
pub proof fn law_negotiation_is_symmetric(a: Capabilities, b: Capabilities)
    ensures
        a.shared_with(b) == b.shared_with(a),
        a.shared_with(a) == a,
{
}

/// The first message of a client.
#[derive(Debug, PartialEq, Eq)]
pub struct Hello {
    pub version: ProtocolVersion,
    pub node: NodeId,
    pub nonce: [u8; 32],
    pub platform: HostPlatform,
    pub capabilities: Capabilities,
    pub maximum_frame_bytes: NonZeroU32,
}

pub ghost struct HelloView {
    pub version: ProtocolVersion,
    pub node: Seq<char>,
    pub nonce: Seq<u8>,
    pub platform: HostPlatform,
    pub capabilities: Capabilities,
    pub maximum_frame_bytes: u32,
}

impl View for Hello {
    type V = HelloView;

    open spec fn view(&self) -> HelloView {
        HelloView {
            version: self.version,
            node: self.node@,
            nonce: self.nonce@,
            platform: self.platform,
            capabilities: self.capabilities,
            maximum_frame_bytes: self.maximum_frame_bytes@,
        }
    }
}

impl Clone for Hello {
    fn clone(&self) -> (copy: Hello)
        ensures
            copy == *self,
    {
        Hello {
            version: self.version,
            node: self.node.clone(),
            nonce: self.nonce,
            platform: self.platform,
            capabilities: self.capabilities,
            maximum_frame_bytes: self.maximum_frame_bytes,
        }
    }
}

#[derive(Clone, Copy, Debug, PartialEq, Eq, Structural)]
pub enum RejectReason {
    VersionMismatch,
    UnknownNode,
    AuthenticationFailed,
    ReplayDetected,
    AlreadyConnected,
    PolicyDenied,
}

#[derive(Debug, PartialEq, Eq)]
pub enum Handshake {
    Hello(Hello),
    Accepted {
        session_id: u128,
        controller: NodeId,
        client_nonce: [u8; 32],
        server_nonce: [u8; 32],
        platform: HostPlatform,
        negotiated_capabilities: Capabilities,
        maximum_frame_bytes: NonZeroU32,
        heartbeat_interval_ms: NonZeroU32,
    },
    Rejected { reason: RejectReason },
}

pub ghost enum HandshakeView {
    Hello(HelloView),
    Accepted {
        session_id: u128,
        controller: Seq<char>,
        client_nonce: Seq<u8>,
        server_nonce: Seq<u8>,
        platform: HostPlatform,
        negotiated_capabilities: Capabilities,
        maximum_frame_bytes: u32,
        heartbeat_interval_ms: u32,
    },
    Rejected { reason: RejectReason },
}

impl View for Handshake {
    type V = HandshakeView;

    open spec fn view(&self) -> HandshakeView {
        match self {
            Handshake::Hello(hello) => HandshakeView::Hello(hello@),
            Handshake::Accepted {
                session_id,
                controller,
                client_nonce,
                server_nonce,
                platform,
                negotiated_capabilities,
                maximum_frame_bytes,
                heartbeat_interval_ms,
            } => HandshakeView::Accepted {
                session_id: *session_id,
                controller: controller@,
                client_nonce: client_nonce@,
                server_nonce: server_nonce@,
                platform: *platform,
                negotiated_capabilities: *negotiated_capabilities,
                maximum_frame_bytes: maximum_frame_bytes@,
                heartbeat_interval_ms: heartbeat_interval_ms@,
            },
            Handshake::Rejected { reason } => HandshakeView::Rejected { reason: *reason },
        }
    }
}

/// Input events for one focus epoch, numbered per peer.
#[derive(Debug, PartialEq, Eq)]
pub struct InputBatch {
    pub focus_epoch: u64,
    pub sequence: u64,
    pub events: Vec<InputEvent>,
}

#[verifier::ext_equal]
pub ghost struct BatchView {
    pub focus_epoch: u64,
    pub sequence: u64,
    pub events: Seq<InputEvent>,
}

impl View for InputBatch {
    type V = BatchView;

    open spec fn view(&self) -> BatchView {
        BatchView {
            focus_epoch: self.focus_epoch,
            sequence: self.sequence,
            events: self.events@,
        }
    }
}

impl Clone for InputBatch {
    fn clone(&self) -> (copy: InputBatch)
        ensures
            copy@ == self@,
    {
        let mut events: Vec<InputEvent> = Vec::new();
        let mut index: usize = 0;
        while index < self.events.len()
            invariant
                index <= self.events.len(),
                events@ == self.events@.take(index as int),
            decreases self.events.len() - index,
        {
            events.push(self.events[index]);
            index += 1;
        }
        assert(events@ =~= self.events@);
        InputBatch { focus_epoch: self.focus_epoch, sequence: self.sequence, events }
    }
}

/// A message of an established session.
#[derive(Debug, PartialEq, Eq)]
pub enum Session {
    DisplayChanged { size: Size, monitor_count: NonZeroU32 },
    FocusChanged {
        focus_epoch: u64,
        target: NodeId,
        /// Position in the target node's local desktop coordinates.
        entry_position: Point,
    },
    Input(InputBatch),
    InputAcknowledged { through_sequence: u64 },
    Heartbeat { nonce: u64 },
    HeartbeatAcknowledged { nonce: u64 },
    Clipboard(ClipboardControl),
    Disconnect,
}

pub ghost enum SessionView {
    DisplayChanged { size: Size, monitor_count: u32 },
    FocusChanged { focus_epoch: u64, target: Seq<char>, entry_position: Point },
    Input(BatchView),
    InputAcknowledged { through_sequence: u64 },
    Heartbeat { nonce: u64 },
    HeartbeatAcknowledged { nonce: u64 },
    Clipboard(crate::protocol::clipboard::ControlView),
    Disconnect,
}

impl View for Session {
    type V = SessionView;

    open spec fn view(&self) -> SessionView {
        match self {
            Session::DisplayChanged { size, monitor_count } => SessionView::DisplayChanged {
                size: *size,
                monitor_count: monitor_count@,
            },
            Session::FocusChanged { focus_epoch, target, entry_position } => {
                SessionView::FocusChanged {
                    focus_epoch: *focus_epoch,
                    target: target@,
                    entry_position: *entry_position,
                }
            },
            Session::Input(batch) => SessionView::Input(batch@),
            Session::InputAcknowledged { through_sequence } => SessionView::InputAcknowledged {
                through_sequence: *through_sequence,
            },
            Session::Heartbeat { nonce } => SessionView::Heartbeat { nonce: *nonce },
            Session::HeartbeatAcknowledged { nonce } => SessionView::HeartbeatAcknowledged {
                nonce: *nonce,
            },
            Session::Clipboard(control) => SessionView::Clipboard(control@),
            Session::Disconnect => SessionView::Disconnect,
        }
    }
}

impl Clone for Session {
    fn clone(&self) -> (copy: Session)
        ensures
            copy@ == self@,
    {
        match self {
            Session::DisplayChanged { size, monitor_count } => Session::DisplayChanged {
                size: *size,
                monitor_count: *monitor_count,
            },
            Session::FocusChanged { focus_epoch, target, entry_position } => {
                Session::FocusChanged {
                    focus_epoch: *focus_epoch,
                    target: target.clone(),
                    entry_position: *entry_position,
                }
            },
            Session::Input(batch) => Session::Input(batch.clone()),
            Session::InputAcknowledged { through_sequence } => Session::InputAcknowledged {
                through_sequence: *through_sequence,
            },
            Session::Heartbeat { nonce } => Session::Heartbeat { nonce: *nonce },
            Session::HeartbeatAcknowledged { nonce } => Session::HeartbeatAcknowledged {
                nonce: *nonce,
            },
            Session::Clipboard(control) => Session::Clipboard(control.clone()),
            Session::Disconnect => Session::Disconnect,
        }
    }
}

#[derive(Debug, PartialEq, Eq)]
pub enum Envelope {
    Handshake(Handshake),
    Session(Session),
}

/// The error that a batch of this many events is refused with.
pub open spec fn batch_size_fault(count: int) -> Option<MessageValidationError> {
    if count == 0 {
        Some(MessageValidationError::EmptyInputBatch)
    } else if count > MAX_INPUT_EVENTS_PER_BATCH {
        Some(
            MessageValidationError::TooManyInputEvents {
                actual: count as usize,
                maximum: MAX_INPUT_EVENTS_PER_BATCH,
            },
        )
    } else {
        None
    }
}

/// The error that a message is refused with; `None` where it is acceptable.
pub open spec fn envelope_fault(message: Envelope) -> Option<MessageValidationError> {
    match message {
        Envelope::Handshake(_) => None,
        Envelope::Session(Session::Input(batch)) => batch_size_fault(batch.events@.len() as int),
        Envelope::Session(Session::Clipboard(ClipboardControl::Offered(offer))) => {
            match crate::protocol::clipboard::text_length_fault(offer@.text_bytes as int) {
                Some(error) => Some(MessageValidationError::InvalidClipboard(error)),
                None => None,
            }
        },
        Envelope::Session(_) => None,
    }
}

impl Envelope {
    /// Checks the limits that the wire format itself does not enforce.
    pub fn validate(&self) -> (result: Result<(), MessageValidationError>)
        ensures
            result == match envelope_fault(*self) {
                Some(error) => Err::<(), MessageValidationError>(error),
                None => Ok(()),
            },
    {
        if let Envelope::Session(message) = self {
            match message {
                Session::Input(batch) => {
                    if batch.events.is_empty() {
                        return Err(MessageValidationError::EmptyInputBatch);
                    }
                    if batch.events.len() > MAX_INPUT_EVENTS_PER_BATCH {
                        return Err(
                            MessageValidationError::TooManyInputEvents {
                                actual: batch.events.len(),
                                maximum: MAX_INPUT_EVENTS_PER_BATCH,
                            },
                        );
                    }
                },
                Session::Clipboard(ClipboardControl::Offered(offer)) => match offer.validate() {
                    Ok(()) => {},
                    Err(error) => {
                        return Err(MessageValidationError::InvalidClipboard(error));
                    },
                },
                Session::DisplayChanged { .. }
                | Session::FocusChanged { .. }
                | Session::InputAcknowledged { .. }
                | Session::Heartbeat { .. }
                | Session::HeartbeatAcknowledged { .. }
                | Session::Clipboard(ClipboardControl::Applied { .. })
                | Session::Disconnect => {},
            }
        }
        Ok(())
    }
}

/// Why a message is refused.
#[derive(Clone, Copy, Debug, PartialEq, Eq, Structural)]
pub enum MessageValidationError {
    EmptyInputBatch,
    TooManyInputEvents { actual: usize, maximum: usize },
    InvalidClipboard(ClipboardError),
}

impl RejectReason {
    pub open spec fn name_text(self) -> Seq<char> {
        match self {
            RejectReason::VersionMismatch => "VersionMismatch"@,
            RejectReason::UnknownNode => "UnknownNode"@,
            RejectReason::AuthenticationFailed => "AuthenticationFailed"@,
            RejectReason::ReplayDetected => "ReplayDetected"@,
            RejectReason::AlreadyConnected => "AlreadyConnected"@,
            RejectReason::PolicyDenied => "PolicyDenied"@,
        }
    }

    pub fn name(self) -> (name: &'static str)
        ensures
            name@ == self.name_text(),
    {
        match self {
            RejectReason::VersionMismatch => "VersionMismatch",
            RejectReason::UnknownNode => "UnknownNode",
            RejectReason::AuthenticationFailed => "AuthenticationFailed",
            RejectReason::ReplayDetected => "ReplayDetected",
            RejectReason::AlreadyConnected => "AlreadyConnected",
            RejectReason::PolicyDenied => "PolicyDenied",
        }
    }
}

impl MessageValidationError {
    /// The error in words.
    pub open spec fn text(self) -> Seq<char> {
        match self {
            MessageValidationError::EmptyInputBatch => "an input batch cannot be empty"@,
            MessageValidationError::TooManyInputEvents { actual, maximum } => {
                "input batch has "@ + crate::text::decimal(actual as nat)
                    + " events; the maximum is "@ + crate::text::decimal(maximum as nat)
            },
            MessageValidationError::InvalidClipboard(error) => error.text(),
        }
    }

    /// The error in words.
    pub fn message(&self) -> (message: String)
        ensures
            message@ == self.text(),
    {
        let mut message = String::new();
        match self {
            MessageValidationError::EmptyInputBatch => {
                message.append("an input batch cannot be empty");
            },
            MessageValidationError::TooManyInputEvents { actual, maximum } => {
                message.append("input batch has ");
                push_decimal(&mut message, *actual as u64);
                message.append(" events; the maximum is ");
                push_decimal(&mut message, *maximum as u64);
            },
            MessageValidationError::InvalidClipboard(error) => {
                message.append(error.message().as_str());
            },
        }
        assert(message@ =~= self.text());
        message
    }
}

} // verus!
