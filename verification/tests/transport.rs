use bytes::BytesMut;
use tevir::domain::host::HostPlatform;
use tevir::domain::identity::NodeId;
use tevir::domain::nonzero::NonZeroU32;
use tevir::identity::pairing::PairingBundle;
use tevir::identity::store::TrustStore;
use tevir::protocol::codec::CodecError;
use tevir::protocol::message::{Capabilities, Envelope, Handshake, RejectReason, Session};
use tevir::time::Duration;
use tevir::transport::config::{LimitsError, ReconnectPolicy, SessionLimits};
use tevir::transport::frame::{
    bulk_length, check_declared_length, control_frame, control_message, FrameError,
};
use tevir::transport::handshake::{
    answer_hello, authenticated_peer, check_reply, client_hello, expect_stream_kind, known_peer,
    rejection, session_message, ClientDecision, Closing, ServerDecision, SessionProfile,
    TransportError, CLIPBOARD_STREAM, CONTROL_STREAM,
};
use tevir::transport::replay::{ReplayGuard, DEFAULT_REPLAY_CAPACITY};

fn node(value: &str) -> NodeId {
    NodeId::new(value).unwrap_or_else(|error| panic!("invalid test node: {error:?}"))
}

fn profile(clipboard_text: bool) -> SessionProfile {
    SessionProfile {
        platform: HostPlatform::LinuxWayland,
        capabilities: Capabilities {
            keyboard: true,
            relative_pointer: true,
            absolute_pointer: false,
            clipboard_text,
        },
    }
}

#[test]
fn reconnect_delay_is_bounded_and_attempts_stop() {
    let policy = ReconnectPolicy::new(
        NonZeroU32::new(4).unwrap_or(NonZeroU32::min_value()),
        Duration::from_millis(100),
        Duration::from_millis(250),
    )
    .unwrap_or_else(|error| panic!("policy should be valid: {error:?}"));

    assert_eq!(policy.delay_before(0), Some(Duration::from_millis(100)));
    assert_eq!(policy.delay_before(1), Some(Duration::from_millis(200)));
    assert_eq!(policy.delay_before(2), Some(Duration::from_millis(250)));
    assert_eq!(policy.delay_before(3), Some(Duration::from_millis(250)));
    assert_eq!(policy.delay_before(4), None);
}

#[test]
fn delays_must_be_ordered() {
    let attempts = NonZeroU32::min_value();
    assert!(matches!(
        ReconnectPolicy::new(attempts, Duration::from_millis(0), Duration::from_millis(1)),
        Err(LimitsError::InvalidReconnectDelay)
    ));
    assert!(matches!(
        ReconnectPolicy::new(attempts, Duration::from_millis(2), Duration::from_millis(1)),
        Err(LimitsError::InvalidReconnectDelay)
    ));
}

#[test]
fn rejects_a_replayed_node_nonce_pair() {
    let node = node("right");
    let mut guard = ReplayGuard::new();

    assert!(guard.admits(node.clone(), [3; 32]));
    assert!(!guard.admits(node.clone(), [3; 32]));
    assert!(guard.admits(node, [4; 32]));
}

#[test]
fn the_oldest_nonce_is_forgotten_first() {
    let mut guard = ReplayGuard::new();
    let nonce = |index: usize| {
        let mut nonce = [0u8; 32];
        nonce[..8].copy_from_slice(&(index as u64).to_be_bytes());
        nonce
    };
    for index in 0..DEFAULT_REPLAY_CAPACITY + 1 {
        assert!(guard.admits(node("right"), nonce(index)));
    }
    assert!(!guard.admits(node("right"), nonce(1)));
    assert!(guard.admits(node("right"), nonce(0)));
}

#[test]
fn frame_lengths_are_checked_before_they_are_read() {
    assert_eq!(
        check_declared_length(33, 32),
        Err(FrameError::FrameTooLarge {
            actual: 33,
            maximum: 32
        })
    );
    assert_eq!(check_declared_length(32, 32), Ok(32));
    assert_eq!(bulk_length(&[1, 2, 3], 3), Ok(3));
    assert_eq!(
        bulk_length(&[1, 2, 3], 2),
        Err(FrameError::FrameTooLarge {
            actual: 3,
            maximum: 2
        })
    );
}

#[test]
fn control_frames_come_back() {
    let farewell = || Envelope::Session(Session::Disconnect);
    let parse = |payload: &[u8]| match payload {
        [5, 6] => Ok(farewell()),
        _ => Err(String::from("unknown payload")),
    };
    let mut frame = control_frame(&farewell(), 64, |_: &Envelope| Ok(vec![5, 6]))
        .unwrap_or_else(|error| panic!("framing failed: {error:?}"));
    assert_eq!(&frame[..], &[0, 0, 0, 2, 5, 6]);
    assert_eq!(control_message(&mut frame, 64, parse), Ok(farewell()));
    assert!(frame.is_empty());
    let mut unknown = BytesMut::from(&[0, 0, 0, 1, 5][..]);
    assert_eq!(
        control_message(&mut unknown, 64, parse),
        Err(FrameError::Codec(CodecError::Deserialize(String::from(
            "unknown payload"
        ))))
    );
    let mut partial = BytesMut::from(&[0, 0, 0, 2, 5][..]);
    assert_eq!(
        control_message(&mut partial, 64, parse),
        Err(FrameError::IncompleteFrame)
    );
    assert!(control_message(&mut partial, 1, parse).is_err());
    assert!(control_message(&mut partial, 0, parse).is_err());
    assert_eq!(&partial[..], &[0, 0, 0, 2, 5]);
}

fn accepted(guard: &mut ReplayGuard, certificate: &str, hello: Envelope) -> ServerDecision {
    answer_hello(
        &node("controller"),
        profile(true),
        &SessionLimits::default(),
        guard,
        &node(certificate),
        hello,
        42,
        [9; 32],
    )
}

#[test]
fn handshakes_agree_on_both_sides() {
    let limits = SessionLimits::default();
    let mut guard = ReplayGuard::new();
    let hello = client_hello(&node("agent"), profile(false), &limits, [1; 32]);
    let reply = match accepted(&mut guard, "agent", hello) {
        ServerDecision::Accept { reply, info, .. } => {
            assert_eq!(info.peer, node("agent"));
            assert_eq!(info.session_id, 42);
            assert!(!info.negotiated_capabilities.clipboard_text);
            assert!(info.negotiated_capabilities.keyboard);
            reply
        }
        ServerDecision::Refuse { error, .. } => panic!("refused: {error:?}"),
    };
    match check_reply(&node("controller"), &[1; 32], &limits, reply) {
        ClientDecision::Established { info, .. } => {
            assert_eq!(info.peer, node("controller"));
            assert_eq!(info.session_id, 42);
            assert!(!info.negotiated_capabilities.clipboard_text);
        }
        ClientDecision::Refuse { error, .. } => panic!("refused: {error:?}"),
    }
}

#[test]
fn handshakes_are_refused_for_each_reason() {
    let limits = SessionLimits::default();
    let hello =
        |name: &str, nonce: u8| client_hello(&node(name), profile(true), &limits, [nonce; 32]);
    let mut guard = ReplayGuard::new();
    assert!(matches!(
        accepted(&mut guard, "other", hello("agent", 1)),
        ServerDecision::Refuse {
            error: TransportError::NodeIdentityMismatch { .. },
            closing: Closing::NodeIdentity,
            ..
        }
    ));
    assert!(matches!(
        accepted(&mut guard, "agent", hello("agent", 1)),
        ServerDecision::Accept { .. }
    ));
    assert!(matches!(
        accepted(&mut guard, "agent", hello("agent", 1)),
        ServerDecision::Refuse {
            rejection: Some(RejectReason::ReplayDetected),
            error: TransportError::ReplayDetected,
            ..
        }
    ));
    let old = match hello("agent", 2) {
        Envelope::Handshake(Handshake::Hello(mut hello)) => {
            hello.version.minor += 1;
            Envelope::Handshake(Handshake::Hello(hello))
        }
        _ => panic!("a client says hello"),
    };
    assert!(matches!(
        accepted(&mut guard, "agent", old),
        ServerDecision::Refuse {
            rejection: Some(RejectReason::VersionMismatch),
            error: TransportError::VersionMismatch,
            ..
        }
    ));
    assert!(matches!(
        accepted(&mut guard, "agent", Envelope::Session(Session::Disconnect)),
        ServerDecision::Refuse {
            error: TransportError::UnexpectedHandshake,
            ..
        }
    ));
    assert!(matches!(
        check_reply(
            &node("controller"),
            &[1; 32],
            &limits,
            rejection(RejectReason::UnknownNode)
        ),
        ClientDecision::Refuse {
            error: TransportError::Rejected(RejectReason::UnknownNode),
            ..
        }
    ));
    let mut guard = ReplayGuard::new();
    let reply = match accepted(&mut guard, "agent", hello("agent", 3)) {
        ServerDecision::Accept { reply, .. } => reply,
        ServerDecision::Refuse { error, .. } => panic!("refused: {error:?}"),
    };
    assert!(matches!(
        check_reply(&node("controller"), &[4; 32], &limits, reply),
        ClientDecision::Refuse {
            error: TransportError::HandshakeBindingMismatch,
            closing: Closing::HandshakeBinding,
        }
    ));
}

#[test]
fn only_session_messages_follow_a_handshake() {
    assert_eq!(
        session_message(Envelope::Session(Session::Disconnect)),
        Ok(Session::Disconnect)
    );
    assert_eq!(
        session_message(rejection(RejectReason::PolicyDenied)),
        Err(TransportError::UnexpectedHandshake)
    );
    assert_eq!(expect_stream_kind(CONTROL_STREAM, CONTROL_STREAM), Ok(()));
    assert_eq!(
        expect_stream_kind(CLIPBOARD_STREAM, CONTROL_STREAM),
        Err(TransportError::UnexpectedStreamKind(CLIPBOARD_STREAM))
    );
}

fn trusting(name: &str, anchor: Vec<u8>) -> TrustStore {
    let mut trust = TrustStore::empty();
    let bundle = PairingBundle::new(node(name), anchor);
    let code = bundle.code();
    trust
        .trust(bundle, code.as_str())
        .unwrap_or_else(|error| panic!("pairing failed: {error:?}"));
    trust
}

#[test]
fn peers_are_known_by_the_anchor_of_their_chain() {
    let trust = trusting("agent", vec![1, 2, 3]);
    let peer = authenticated_peer(&vec![vec![7], vec![1, 2, 3]], &trust)
        .unwrap_or_else(|error| panic!("the anchor is trusted: {error:?}"));
    assert_eq!(peer.node(), &node("agent"));
    assert!(matches!(
        authenticated_peer(&vec![vec![1, 2, 3], vec![7]], &trust),
        Err(TransportError::UntrustedCertificate)
    ));
    assert!(matches!(
        authenticated_peer(&Vec::new(), &trust),
        Err(TransportError::MissingPeerCertificate)
    ));
    assert!(matches!(
        known_peer(&trust, &node("stranger")),
        Err(TransportError::UnknownPeer(unknown)) if unknown == node("stranger")
    ));
}
