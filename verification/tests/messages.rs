use tevir::discovery::record::{DiscoveryError, RecordError};
use tevir::domain::geometry::Point;
use tevir::domain::identity::{NodeId, NodeIdError};
use tevir::domain::nonzero::NonZeroU64;
use tevir::domain::topology::{Edge, GridSlot, TopologyError};
use tevir::identity::pairing::PairingError;
use tevir::identity::store::{IdentityError, PeerFileError, TrustError};
use tevir::platform::convert::ConversionError;
use tevir::protocol::clipboard::{ClipboardError, ClipboardGeneration};
use tevir::protocol::codec::CodecError;
use tevir::protocol::message::{MessageValidationError, RejectReason};
use tevir::runtime::event::{RuntimeError, RuntimeStartError};
use tevir::session::agent::AgentError;
use tevir::session::clipboard::ClipboardSessionError;
use tevir::session::controller::ControllerError;
use tevir::transport::config::LimitsError;
use tevir::transport::frame::FrameError;
use tevir::transport::handshake::TransportError;

fn node(value: &str) -> NodeId {
    NodeId::new(value).unwrap_or_else(|error| panic!("test node should be valid: {error:?}"))
}

fn generation(owner: &str, sequence: u64) -> ClipboardGeneration {
    ClipboardGeneration::new(
        node(owner),
        NonZeroU64::new(sequence).unwrap_or(NonZeroU64::min_value()),
    )
}

#[test]
fn identity_errors_are_told() {
    assert_eq!(
        PairingError::InvalidCertificateLength {
            actual: 0,
            maximum: 16_384,
        }
        .message(),
        "pairing certificate is 0 bytes; the allowed range is 1..=16384"
    );
    assert_eq!(
        PairingError::InvalidPayload(String::from("expected value")).message(),
        "pairing bundle payload is invalid: expected value"
    );
    assert_eq!(
        PairingError::UnsupportedVersion(2).message(),
        "pairing bundle version 2 is not supported"
    );
    assert_eq!(
        IdentityError::NodeMismatch {
            expected: node("left"),
            actual: node("right"),
        }
        .message(),
        "identity credential belongs to `right`, not `left`"
    );
    assert_eq!(
        PeerFileError::EmptyCertificate.message(),
        "trusted peer certificate is empty"
    );
    assert_eq!(
        TrustError::NodeAlreadyTrusted(node("right")).message(),
        "node `right` is already trusted with a different certificate"
    );
    assert_eq!(
        TrustError::TooManyPeers { maximum: 256 }.message(),
        "the trust store allows at most 256 peers"
    );
}

#[test]
fn protocol_errors_are_told() {
    assert_eq!(
        FrameError::Codec(CodecError::InvalidMessage(
            MessageValidationError::InvalidClipboard(ClipboardError::LengthMismatch {
                offered: 7,
                actual: 9,
            })
        ))
        .message(),
        "clipboard transfer is 9 bytes, but its offer declared 7"
    );
    assert_eq!(
        CodecError::Serialize(String::from("full")).message(),
        "could not serialize protocol message: full"
    );
    assert_eq!(
        CodecError::Deserialize(String::from("cut off")).message(),
        "could not deserialize protocol message: cut off"
    );
    assert_eq!(
        CodecError::InvalidMaximum {
            requested: 0,
            hard_maximum: 16_777_216,
        }
        .message(),
        "maximum frame length 0 is outside 1..=16777216"
    );
    assert_eq!(
        FrameError::FrameTooLarge {
            actual: 12,
            maximum: 8,
        }
        .message(),
        "frame is 12 bytes; the configured maximum is 8"
    );
    assert_eq!(
        TransportError::Rejected(RejectReason::ReplayDetected).message(),
        "peer rejected the handshake: ReplayDetected"
    );
    assert_eq!(
        TransportError::NodeIdentityMismatch {
            certificate: node("left"),
            claimed: node("right"),
        }
        .message(),
        "certificate belongs to `left`, but the peer claimed `right`"
    );
    assert_eq!(
        LimitsError::ControlFrameTooLarge.message(),
        "control frame size exceeds the protocol hard limit of 16777216 bytes"
    );
}

#[test]
fn session_errors_are_told() {
    assert_eq!(
        AgentError::EntryPositionOutsideDisplay {
            position: Point { x: -1, y: 20 },
            width: 1920,
            height: 1080,
        }
        .message(),
        "entry position (-1, 20) is outside the local 1920x1080 display"
    );
    assert_eq!(
        AgentError::InactiveInputEpoch {
            received: 4,
            active: Some(3),
        }
        .message(),
        "input batch epoch 4 is not active; active epoch is Some(3)"
    );
    assert_eq!(
        AgentError::InactiveInputEpoch {
            received: 4,
            active: None,
        }
        .message(),
        "input batch epoch 4 is not active; active epoch is None"
    );
    assert_eq!(
        ControllerError::NoAdjacentScreen {
            edge: Edge::Top,
            offset: 9,
        }
        .message(),
        "edge Top at offset 9 has no adjacent screen"
    );
    assert_eq!(
        ClipboardSessionError::ConflictingOffer(generation("left", 3)).message(),
        "clipboard generation ClipboardGeneration { owner: NodeId(\"left\"), sequence: 3 } \
         has conflicting offers"
    );
    assert_eq!(
        RuntimeError::Controller(ControllerError::FocusEpochExhausted).message(),
        "session failed: focus epoch is exhausted"
    );
    assert_eq!(
        RuntimeError::OutboundQueue(node("right")).message(),
        "outbound queue for `right` is unavailable"
    );
    assert_eq!(
        RuntimeStartError::UntrustedPeer(node("right")).message(),
        "trusted node `right` must be paired before starting the session"
    );
}

#[test]
fn discovery_and_input_errors_are_told() {
    assert_eq!(
        RecordError::InvalidNode(String::new(), NodeIdError::Empty).message(),
        "node ID is invalid: node ID cannot be empty"
    );
    assert_eq!(
        RecordError::MissingProperty("platform").message(),
        "missing `platform` property"
    );
    assert_eq!(
        DiscoveryError::PairingBundleTooLarge {
            actual: 2_000,
            maximum: 1_760,
        }
        .message(),
        "pairing bundle is 2000 bytes; discovery allows at most 1760"
    );
    assert_eq!(
        ConversionError::UnknownHidKey {
            usage_page: 0x07,
            usage_id: 0xabcd,
        }
        .message(),
        "unknown HID key usage 0x0007:0xabcd"
    );
    assert_eq!(
        TopologyError::SlotOutOfBounds {
            node: node("far"),
            slot: GridSlot::new(5, 1),
        }
        .message(),
        "screen for `far` uses grid slot (5, 1), outside the 5x5 topology"
    );
}
