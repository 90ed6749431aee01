//! The handshake that opens a session.

use vstd::prelude::*;
use vstd::string::*;

use crate::digest::{same_digest, sha256};
use crate::domain::host::HostPlatform;
use crate::domain::identity::NodeId;
use crate::domain::nonzero::NonZeroU32;
use crate::identity::store::{TrustStore, TrustedPeer};
use crate::protocol::message::{
    Capabilities, Envelope, Handshake, Hello, ProtocolVersion, RejectReason, Session,
};
use crate::text::push_decimal;
use crate::transport::config::SessionLimits;
use crate::transport::replay::ReplayGuard;

verus! {

pub const CONTROL_STREAM: u8 = 1;

pub const CLIPBOARD_STREAM: u8 = 2;

pub const CONTROL_PRIORITY: i32 = 10;

pub const CLIPBOARD_PRIORITY: i32 = 0;

pub const CLOSE_AUTHENTICATION: u32 = 1;

pub const CLOSE_PROTOCOL: u32 = 2;

pub const HEARTBEAT_INTERVAL_MS: u32 = 10_000;

/// What this node offers in a handshake.
#[derive(Clone, Copy, Debug, PartialEq, Eq, Structural)]
pub struct SessionProfile {
    pub platform: HostPlatform,
    pub capabilities: Capabilities,
}

/// What both sides of an established session agree on.
#[derive(Debug, PartialEq, Eq)]
pub struct ConnectionInfo {
    pub peer: NodeId,
    pub session_id: u128,
    pub negotiated_capabilities: Capabilities,
    pub peer_platform: HostPlatform,
}

pub ghost struct InfoView {
    pub peer: Seq<char>,
    pub session_id: u128,
    pub negotiated_capabilities: Capabilities,
    pub peer_platform: HostPlatform,
}

impl View for ConnectionInfo {
    type V = InfoView;

    open spec fn view(&self) -> InfoView {
        InfoView {
            peer: self.peer@,
            session_id: self.session_id,
            negotiated_capabilities: self.negotiated_capabilities,
            peer_platform: self.peer_platform,
        }
    }
}

impl Clone for ConnectionInfo {
    fn clone(&self) -> (copy: ConnectionInfo)
        ensures
            copy == *self,
    {
        ConnectionInfo {
            peer: self.peer.clone(),
            session_id: self.session_id,
            negotiated_capabilities: self.negotiated_capabilities,
            peer_platform: self.peer_platform,
        }
    }
}

/// Why a connection does not become a session.
#[derive(Debug, PartialEq, Eq)]
pub enum TransportError {
    MissingPeerCertificate,
    UntrustedCertificate,
    UnknownPeer(NodeId),
    NodeIdentityMismatch { certificate: NodeId, claimed: NodeId },
    VersionMismatch,
    ReplayDetected,
    Rejected(RejectReason),
    UnexpectedHandshake,
    UnexpectedStreamKind(u8),
    HandshakeBindingMismatch,
    InvalidFrameLimit,
}

pub ghost enum ErrorView {
    MissingPeerCertificate,
    UntrustedCertificate,
    UnknownPeer(Seq<char>),
    NodeIdentityMismatch { certificate: Seq<char>, claimed: Seq<char> },
    VersionMismatch,
    ReplayDetected,
    Rejected(RejectReason),
    UnexpectedHandshake,
    UnexpectedStreamKind(u8),
    HandshakeBindingMismatch,
    InvalidFrameLimit,
}

impl View for TransportError {
    type V = ErrorView;

    open spec fn view(&self) -> ErrorView {
        match self {
            TransportError::MissingPeerCertificate => ErrorView::MissingPeerCertificate,
            TransportError::UntrustedCertificate => ErrorView::UntrustedCertificate,
            TransportError::UnknownPeer(node) => ErrorView::UnknownPeer(node@),
            TransportError::NodeIdentityMismatch { certificate, claimed } => {
                ErrorView::NodeIdentityMismatch { certificate: certificate@, claimed: claimed@ }
            },
            TransportError::VersionMismatch => ErrorView::VersionMismatch,
            TransportError::ReplayDetected => ErrorView::ReplayDetected,
            TransportError::Rejected(reason) => ErrorView::Rejected(*reason),
            TransportError::UnexpectedHandshake => ErrorView::UnexpectedHandshake,
            TransportError::UnexpectedStreamKind(kind) => ErrorView::UnexpectedStreamKind(*kind),
            TransportError::HandshakeBindingMismatch => ErrorView::HandshakeBindingMismatch,
            TransportError::InvalidFrameLimit => ErrorView::InvalidFrameLimit,
        }
    }
}

/// How a refused connection is closed.
#[derive(Clone, Copy, Debug, PartialEq, Eq, Structural)]
pub enum Closing {
    /// The connection is left to end by itself.
    Unforced,
    Handshake,
    NodeIdentity,
    Version,
    Replay,
    HandshakeBinding,
    FrameLimit,
}

impl Closing {
    /// The code that the connection is closed with.
    pub open spec fn close_code(self) -> Option<u32> {
        match self {
            Closing::Unforced => None,
            Closing::Handshake | Closing::Version | Closing::FrameLimit => Some(CLOSE_PROTOCOL),
            Closing::NodeIdentity | Closing::Replay | Closing::HandshakeBinding => Some(
                CLOSE_AUTHENTICATION,
            ),
        }
    }

    pub fn code(self) -> (code: Option<u32>)
        ensures
            code == self.close_code(),
    {
        match self {
            Closing::Unforced => None,
            Closing::Handshake | Closing::Version | Closing::FrameLimit => Some(CLOSE_PROTOCOL),
            Closing::NodeIdentity | Closing::Replay | Closing::HandshakeBinding => Some(
                CLOSE_AUTHENTICATION,
            ),
        }
    }

    /// The reason that the connection is closed with.
    pub fn reason(self) -> (reason: &'static str)
        ensures
            reason@ == match self {
                Closing::Unforced => ""@,
                Closing::Handshake => "handshake"@,
                Closing::NodeIdentity => "node identity"@,
                Closing::Version => "version"@,
                Closing::Replay => "replay"@,
                Closing::HandshakeBinding => "handshake binding"@,
                Closing::FrameLimit => "frame limit"@,
            },
    {
        match self {
            Closing::Unforced => "",
            Closing::Handshake => "handshake",
            Closing::NodeIdentity => "node identity",
            Closing::Version => "version",
            Closing::Replay => "replay",
            Closing::HandshakeBinding => "handshake binding",
            Closing::FrameLimit => "frame limit",
        }
    }
}

/// How a server goes on after the first message of a client.
#[derive(Debug)]
pub enum ServerDecision {
    Accept { reply: Envelope, info: ConnectionInfo, maximum_frame_bytes: usize },
    Refuse { rejection: Option<RejectReason>, closing: Closing, error: TransportError },
}

pub ghost enum ServerDecisionView {
    Accept {
        reply: crate::protocol::message::HandshakeView,
        info: InfoView,
        maximum_frame_bytes: int,
    },
    Refuse { rejection: Option<RejectReason>, closing: Closing, error: ErrorView },
}

impl ServerDecision {
    /// The decision has this meaning. An accepting reply is always a handshake
    /// message.
    pub open spec fn means(self, meaning: ServerDecisionView) -> bool {
        match self {
            ServerDecision::Accept {
                reply,
                info,
                maximum_frame_bytes,
            } => reply is Handshake && meaning == (ServerDecisionView::Accept {
                reply: reply->Handshake_0@,
                info: info@,
                maximum_frame_bytes: maximum_frame_bytes as int,
            }),
            ServerDecision::Refuse { rejection, closing, error } => meaning == (
            ServerDecisionView::Refuse { rejection, closing, error: error@ }),
        }
    }
}

/// The smaller of two limits.
pub open spec fn smaller(a: int, b: int) -> int {
    if a <= b {
        a
    } else {
        b
    }
}

/// The first message of a client with this nonce.
pub open spec fn hello_of(
    node: Seq<char>,
    profile: SessionProfile,
    maximum_frame_bytes: u32,
    nonce: Seq<u8>,
) -> crate::protocol::message::HelloView {
    crate::protocol::message::HelloView {
        version: ProtocolVersion {
            major: crate::protocol::message::CURRENT_PROTOCOL_MAJOR,
            minor: crate::protocol::message::CURRENT_PROTOCOL_MINOR,
        },
        node,
        nonce,
        platform: profile.platform,
        capabilities: profile.capabilities,
        maximum_frame_bytes,
    }
}

/// How a server answers a hello on a connection that was authenticated as
/// `certificate`, where `entries` are the handshakes that it remembers.
pub open spec fn answer(
    local: Seq<char>,
    profile: SessionProfile,
    maximum_frame_bytes: int,
    entries: Seq<(Seq<char>, Seq<u8>)>,
    certificate: Seq<char>,
    hello: crate::protocol::message::HelloView,
    session_id: u128,
    server_nonce: Seq<u8>,
) -> ServerDecisionView {
    if hello.node != certificate {
        ServerDecisionView::Refuse {
            rejection: Some(RejectReason::AuthenticationFailed),
            closing: Closing::NodeIdentity,
            error: ErrorView::NodeIdentityMismatch { certificate, claimed: hello.node },
        }
    } else if !hello.version.is_current_version() {
        ServerDecisionView::Refuse {
            rejection: Some(RejectReason::VersionMismatch),
            closing: Closing::Version,
            error: ErrorView::VersionMismatch,
        }
    } else if entries.contains((hello.node, hello.nonce)) {
        ServerDecisionView::Refuse {
            rejection: Some(RejectReason::ReplayDetected),
            closing: Closing::Replay,
            error: ErrorView::ReplayDetected,
        }
    } else {
        let limit = smaller(maximum_frame_bytes, hello.maximum_frame_bytes as int);
        let negotiated_capabilities = profile.capabilities.shared_with(hello.capabilities);
        ServerDecisionView::Accept {
            reply: crate::protocol::message::HandshakeView::Accepted {
                session_id,
                controller: local,
                client_nonce: hello.nonce,
                server_nonce,
                platform: profile.platform,
                negotiated_capabilities,
                maximum_frame_bytes: limit as u32,
                heartbeat_interval_ms: HEARTBEAT_INTERVAL_MS,
            },
            info: InfoView {
                peer: hello.node,
                session_id,
                negotiated_capabilities,
                peer_platform: hello.platform,
            },
            maximum_frame_bytes: limit,
        }
    }
}

/// How a server goes on after the first message of an authenticated client.
/// Every handshake that is not refused for its node or version is remembered.
pub fn answer_hello(
    local: &NodeId,
    profile: SessionProfile,
    limits: &SessionLimits,
    guard: &mut ReplayGuard,
    certificate: &NodeId,
    message: Envelope,
    session_id: u128,
    server_nonce: [u8; 32],
) -> (decision: ServerDecision)
    ensures
        match message {
            Envelope::Handshake(Handshake::Hello(hello)) => {
                &&& decision.means(
                    answer(
                        local@,
                        profile,
                        limits@.maximum_control_frame_bytes as int,
                        old(guard)@,
                        certificate@,
                        hello@,
                        session_id,
                        server_nonce@,
                    ),
                )
                &&& final(guard)@ == if decision is Accept {
                    crate::transport::replay::remembered(old(guard)@, (hello@.node, hello@.nonce))
                } else {
                    old(guard)@
                }
            },
            _ => {
                &&& decision.means(
                    ServerDecisionView::Refuse {
                        rejection: None,
                        closing: Closing::Handshake,
                        error: ErrorView::UnexpectedHandshake,
                    },
                )
                &&& final(guard)@ == old(guard)@
            },
        },
{
    let hello = match message {
        Envelope::Handshake(Handshake::Hello(hello)) => hello,
        _ => {
            return ServerDecision::Refuse {
                rejection: None,
                closing: Closing::Handshake,
                error: TransportError::UnexpectedHandshake,
            };
        },
    };
    if hello.node != *certificate {
        return ServerDecision::Refuse {
            rejection: Some(RejectReason::AuthenticationFailed),
            closing: Closing::NodeIdentity,
            error: TransportError::NodeIdentityMismatch {
                certificate: certificate.clone(),
                claimed: hello.node,
            },
        };
    }
    if !hello.version.is_current() {
        return ServerDecision::Refuse {
            rejection: Some(RejectReason::VersionMismatch),
            closing: Closing::Version,
            error: TransportError::VersionMismatch,
        };
    }
    if !guard.admits(hello.node.clone(), hello.nonce) {
        return ServerDecision::Refuse {
            rejection: Some(RejectReason::ReplayDetected),
            closing: Closing::Replay,
            error: TransportError::ReplayDetected,
        };
    }
    let own: u32 = limits.maximum_control_frame_bytes() as u32;
    let theirs: u32 = hello.maximum_frame_bytes.get();
    let limit: u32 = if own <= theirs {
        own
    } else {
        theirs
    };
    let negotiated_capabilities = profile.capabilities.intersection(hello.capabilities);
    let reply = Envelope::Handshake(
        Handshake::Accepted {
            session_id,
            controller: local.clone(),
            client_nonce: hello.nonce,
            server_nonce,
            platform: profile.platform,
            negotiated_capabilities,
            maximum_frame_bytes: nonzero(limit),
            heartbeat_interval_ms: nonzero(HEARTBEAT_INTERVAL_MS),
        },
    );
    ServerDecision::Accept {
        reply,
        info: ConnectionInfo {
            peer: hello.node,
            session_id,
            negotiated_capabilities,
            peer_platform: hello.platform,
        },
        maximum_frame_bytes: limit as usize,
    }
}

fn nonzero(value: u32) -> (result: NonZeroU32)
    requires
        value > 0,
    ensures
        result@ == value,
{
    match NonZeroU32::new(value) {
        Some(result) => result,
        None => NonZeroU32::min_value(),
    }
}

/// The message that tells a client why it is refused.
pub fn rejection(reason: RejectReason) -> (message: Envelope)
    ensures
        message is Handshake,
        message->Handshake_0@ == (crate::protocol::message::HandshakeView::Rejected { reason }),
{
    Envelope::Handshake(Handshake::Rejected { reason })
}

/// The first message of a client with a fresh nonce.
pub fn client_hello(
    node: &NodeId,
    profile: SessionProfile,
    limits: &SessionLimits,
    nonce: [u8; 32],
) -> (message: Envelope)
    ensures
        message is Handshake,
        message->Handshake_0@ == crate::protocol::message::HandshakeView::Hello(
            hello_of(node@, profile, limits@.maximum_control_frame_bytes as u32, nonce@),
        ),
{
    let limit: u32 = limits.maximum_control_frame_bytes() as u32;
    Envelope::Handshake(
        Handshake::Hello(
            Hello {
                version: ProtocolVersion::current(),
                node: node.clone(),
                nonce,
                platform: profile.platform,
                capabilities: profile.capabilities,
                maximum_frame_bytes: nonzero(limit),
            },
        ),
    )
}

/// How a client goes on after the answer of a server.
#[derive(Debug)]
pub enum ClientDecision {
    Established { info: ConnectionInfo, maximum_frame_bytes: usize },
    Refuse { closing: Closing, error: TransportError },
}

pub ghost enum ClientDecisionView {
    Established { info: InfoView, maximum_frame_bytes: int },
    Refuse { closing: Closing, error: ErrorView },
}

impl View for ClientDecision {
    type V = ClientDecisionView;

    open spec fn view(&self) -> ClientDecisionView {
        match self {
            ClientDecision::Established { info, maximum_frame_bytes } => {
                ClientDecisionView::Established {
                    info: info@,
                    maximum_frame_bytes: *maximum_frame_bytes as int,
                }
            },
            ClientDecision::Refuse { closing, error } => ClientDecisionView::Refuse {
                closing: *closing,
                error: error@,
            },
        }
    }
}

/// How a client that said hello to `peer` takes its answer.
pub open spec fn outcome(
    peer: Seq<char>,
    nonce: Seq<u8>,
    maximum_frame_bytes: int,
    reply: crate::protocol::message::HandshakeView,
) -> ClientDecisionView {
    match reply {
        crate::protocol::message::HandshakeView::Accepted {
            session_id,
            controller,
            client_nonce,
            server_nonce,
            platform,
            negotiated_capabilities,
            maximum_frame_bytes: negotiated,
            heartbeat_interval_ms,
        } => if controller != peer || client_nonce != nonce {
            ClientDecisionView::Refuse {
                closing: Closing::HandshakeBinding,
                error: ErrorView::HandshakeBindingMismatch,
            }
        } else if negotiated > maximum_frame_bytes {
            ClientDecisionView::Refuse {
                closing: Closing::FrameLimit,
                error: ErrorView::InvalidFrameLimit,
            }
        } else {
            ClientDecisionView::Established {
                info: InfoView {
                    peer,
                    session_id,
                    negotiated_capabilities,
                    peer_platform: platform,
                },
                maximum_frame_bytes: negotiated as int,
            }
        },
        crate::protocol::message::HandshakeView::Rejected { reason } => {
            ClientDecisionView::Refuse {
                closing: Closing::Unforced,
                error: ErrorView::Rejected(reason),
            }
        },
        crate::protocol::message::HandshakeView::Hello(_) => ClientDecisionView::Refuse {
            closing: Closing::Unforced,
            error: ErrorView::UnexpectedHandshake,
        },
    }
}

/// How a client goes on after the answer of the server that it said hello to.
pub fn check_reply(
    peer: &NodeId,
    nonce: &[u8; 32],
    limits: &SessionLimits,
    reply: Envelope,
) -> (decision: ClientDecision)
    ensures
        decision@ == match reply {
            Envelope::Handshake(handshake) => outcome(
                peer@,
                nonce@,
                limits@.maximum_control_frame_bytes as int,
                handshake@,
            ),
            Envelope::Session(_) => ClientDecisionView::Refuse {
                closing: Closing::Unforced,
                error: ErrorView::UnexpectedHandshake,
            },
        },
{
    match reply {
        Envelope::Handshake(
            Handshake::Accepted {
                session_id,
                controller,
                client_nonce,
                server_nonce: _,
                platform,
                negotiated_capabilities,
                maximum_frame_bytes,
                heartbeat_interval_ms: _,
            },
        ) => {
            if controller != *peer || !same_digest(&client_nonce, nonce) {
                return ClientDecision::Refuse {
                    closing: Closing::HandshakeBinding,
                    error: TransportError::HandshakeBindingMismatch,
                };
            }
            let negotiated: u32 = maximum_frame_bytes.get();
            if negotiated as usize > limits.maximum_control_frame_bytes() {
                return ClientDecision::Refuse {
                    closing: Closing::FrameLimit,
                    error: TransportError::InvalidFrameLimit,
                };
            }
            ClientDecision::Established {
                info: ConnectionInfo {
                    peer: peer.clone(),
                    session_id,
                    negotiated_capabilities,
                    peer_platform: platform,
                },
                maximum_frame_bytes: negotiated as usize,
            }
        },
        Envelope::Handshake(Handshake::Rejected { reason }) => ClientDecision::Refuse {
            closing: Closing::Unforced,
            error: TransportError::Rejected(reason),
        },
        _ => ClientDecision::Refuse {
            closing: Closing::Unforced,
            error: TransportError::UnexpectedHandshake,
        },
    }
}

/// The session message that an envelope carries after the handshake.
pub fn session_message(message: Envelope) -> (result: Result<Session, TransportError>)
    ensures
        match message {
            Envelope::Session(session) => result == Ok::<Session, TransportError>(session),
            Envelope::Handshake(_) => result == Err::<Session, TransportError>(
                TransportError::UnexpectedHandshake,
            ),
        },
{
    match message {
        Envelope::Session(session) => Ok(session),
        Envelope::Handshake(_) => Err(TransportError::UnexpectedHandshake),
    }
}

/// Checks the byte that a new stream begins with.
pub fn expect_stream_kind(actual: u8, expected: u8) -> (result: Result<(), TransportError>)
    ensures
        result == if actual == expected {
            Ok::<(), TransportError>(())
        } else {
            Err(TransportError::UnexpectedStreamKind(actual))
        },
{
    if actual != expected {
        return Err(TransportError::UnexpectedStreamKind(actual));
    }
    Ok(())
}

/// The digest of the trust anchor, the last certificate that a peer presents.
pub fn peer_anchor_fingerprint(certificates: &Vec<Vec<u8>>) -> (result: Result<
    [u8; 32],
    TransportError,
>)
    ensures
        match result {
            Ok(fingerprint) => certificates@.len() > 0 && fingerprint@ == crate::digest::sha256_of(
                certificates@.last()@,
            ),
            Err(error) => certificates@.len() == 0 && error@ == ErrorView::MissingPeerCertificate,
        },
{
    if certificates.len() == 0 {
        return Err(TransportError::MissingPeerCertificate);
    }
    Ok(sha256(certificates[certificates.len() - 1].as_slice()))
}

/// A trusted peer presents this certificate.
pub open spec fn trusts_certificate(
    peers: Seq<crate::identity::store::PeerView>,
    fingerprint: Seq<u8>,
) -> bool {
    exists|i: int| 0 <= i < peers.len() && (#[trigger] peers[i]).fingerprint() == fingerprint
}

/// The trusted peer that presents these certificates.
pub fn authenticated_peer(certificates: &Vec<Vec<u8>>, trust: &TrustStore) -> (result: Result<
    TrustedPeer,
    TransportError,
>)
    ensures
        match result {
            Ok(peer) => certificates@.len() > 0 && trust@.contains(peer@) && peer@.fingerprint()
                == crate::digest::sha256_of(certificates@.last()@),
            Err(error) => if certificates@.len() == 0 {
                error@ == ErrorView::MissingPeerCertificate
            } else {
                &&& error@ == ErrorView::UntrustedCertificate
                &&& !trusts_certificate(
                    trust@,
                    crate::digest::sha256_of(certificates@.last()@),
                )
            },
        },
{
    let fingerprint = match peer_anchor_fingerprint(certificates) {
        Ok(fingerprint) => fingerprint,
        Err(error) => {
            return Err(error);
        },
    };
    let peers = trust.peers();
    let mut index: usize = 0;
    while index < peers.len()
        invariant
            index <= peers@.len(),
            crate::identity::store::peer_views(peers@) == trust@,
            certificates@.len() > 0,
            fingerprint@ == crate::digest::sha256_of(certificates@.last()@),
            forall|i: int|
                0 <= i < index ==> (#[trigger] trust@[i]).fingerprint() != fingerprint@,
        decreases peers@.len() - index,
    {
        assert(trust@[index as int] == peers@[index as int]@);
        if same_digest(&peers[index].fingerprint(), &fingerprint) {
            return Ok(peers[index].clone());
        }
        index += 1;
    }
    Err(TransportError::UntrustedCertificate)
}

/// Checks that the certificates are those of the peer that was called.
pub fn authenticate_expected_peer(certificates: &Vec<Vec<u8>>, peer: &TrustedPeer) -> (result:
    Result<(), TransportError>)
    ensures
        match result {
            Ok(()) => certificates@.len() > 0 && crate::digest::sha256_of(certificates@.last()@)
                == peer@.fingerprint(),
            Err(error) => if certificates@.len() == 0 {
                error@ == ErrorView::MissingPeerCertificate
            } else {
                &&& error@ == ErrorView::UntrustedCertificate
                &&& crate::digest::sha256_of(certificates@.last()@) != peer@.fingerprint()
            },
        },
{
    let fingerprint = match peer_anchor_fingerprint(certificates) {
        Ok(fingerprint) => fingerprint,
        Err(error) => {
            return Err(error);
        },
    };
    if same_digest(&fingerprint, &peer.fingerprint()) {
        Ok(())
    } else {
        Err(TransportError::UntrustedCertificate)
    }
}

/// The trusted peer that a client calls.
pub fn known_peer(trust: &TrustStore, node: &NodeId) -> (result: Result<
    TrustedPeer,
    TransportError,
>)
    ensures
        match result {
            Ok(peer) => peer@.node == node@ && trust@.contains(peer@),
            Err(error) => error@ == ErrorView::UnknownPeer(node@)
                && !crate::identity::store::knows_node(trust@, node@),
        },
{
    match trust.get(node) {
        Some(peer) => Ok(peer.clone()),
        None => Err(TransportError::UnknownPeer(node.clone())),
    }
}

/// A fresh hello on a connection of its own node is accepted, and the client
/// takes the answer: both sides then agree on the session, its capabilities and
/// the frame limit, and each knows the node and platform of the other.
pub proof fn law_handshakes_agree(
    server: Seq<char>,
    server_profile: SessionProfile,
    server_limit: u32,
    entries: Seq<(Seq<char>, Seq<u8>)>,
    client: Seq<char>,
    client_profile: SessionProfile,
    client_limit: u32,
    nonce: Seq<u8>,
    session_id: u128,
    server_nonce: Seq<u8>,
)
    requires
        !entries.contains((client, nonce)),
    ensures
        ({
            let decision = answer(
                server,
                server_profile,
                server_limit as int,
                entries,
                client,
                hello_of(client, client_profile, client_limit, nonce),
                session_id,
                server_nonce,
            );
            let shared = client_profile.capabilities.shared_with(server_profile.capabilities);
            let limit = smaller(server_limit as int, client_limit as int);
            &&& decision is Accept
            &&& decision->info == (InfoView {
                peer: client,
                session_id,
                negotiated_capabilities: shared,
                peer_platform: client_profile.platform,
            })
            &&& decision->maximum_frame_bytes == limit
            &&& outcome(server, nonce, client_limit as int, decision->reply) == (
            ClientDecisionView::Established {
                info: InfoView {
                    peer: server,
                    session_id,
                    negotiated_capabilities: shared,
                    peer_platform: server_profile.platform,
                },
                maximum_frame_bytes: limit,
            })
        }),
{
    crate::protocol::message::law_negotiation_is_symmetric(
        client_profile.capabilities,
        server_profile.capabilities,
    );
}

/// A handshake that a server accepted is refused as a replay when it comes
/// again right away.
pub proof fn law_accepted_handshakes_are_not_replayed(
    local: Seq<char>,
    profile: SessionProfile,
    maximum_frame_bytes: int,
    entries: Seq<(Seq<char>, Seq<u8>)>,
    certificate: Seq<char>,
    hello: crate::protocol::message::HelloView,
    session_id: u128,
    server_nonce: Seq<u8>,
)
    requires
        entries.len() <= crate::transport::replay::DEFAULT_REPLAY_CAPACITY,
        answer(
            local,
            profile,
            maximum_frame_bytes,
            entries,
            certificate,
            hello,
            session_id,
            server_nonce,
        ) is Accept,
    ensures
        answer(
            local,
            profile,
            maximum_frame_bytes,
            crate::transport::replay::remembered(entries, (hello.node, hello.nonce)),
            certificate,
            hello,
            session_id,
            server_nonce,
        ) == (ServerDecisionView::Refuse {
            rejection: Some(RejectReason::ReplayDetected),
            closing: Closing::Replay,
            error: ErrorView::ReplayDetected,
        }),
{
    let entry = (hello.node, hello.nonce);
    let after = crate::transport::replay::remembered(entries, entry);
    assert(after.last() == entry);
    assert(after.contains(entry));
}

/// No handshake is accepted for another node than the one that the connection
/// was authenticated as, nor in another protocol version.
pub proof fn law_sessions_belong_to_the_authenticated_node(
    local: Seq<char>,
    profile: SessionProfile,
    maximum_frame_bytes: int,
    entries: Seq<(Seq<char>, Seq<u8>)>,
    certificate: Seq<char>,
    hello: crate::protocol::message::HelloView,
    session_id: u128,
    server_nonce: Seq<u8>,
)
    requires
        answer(
            local,
            profile,
            maximum_frame_bytes,
            entries,
            certificate,
            hello,
            session_id,
            server_nonce,
        ) is Accept,
    ensures
        hello.node == certificate,
        hello.version.is_current_version(),
        answer(
            local,
            profile,
            maximum_frame_bytes,
            entries,
            certificate,
            hello,
            session_id,
            server_nonce,
        )->info.peer == certificate,
{
}

impl TransportError {
    /// The error in words.
    pub open spec fn text(self) -> Seq<char> {
        match self {
            TransportError::MissingPeerCertificate => "peer did not present a certificate"@,
            TransportError::UntrustedCertificate => "peer certificate is not paired"@,
            TransportError::UnknownPeer(node) => "node `"@ + node@ + "` is not paired"@,
            TransportError::NodeIdentityMismatch { certificate, claimed } => {
                "certificate belongs to `"@ + certificate@ + "`, but the peer claimed `"@
                    + claimed@ + "`"@
            },
            TransportError::VersionMismatch => "peer uses an incompatible protocol version"@,
            TransportError::ReplayDetected => "peer replayed a previously accepted handshake"@,
            TransportError::Rejected(reason) => {
                "peer rejected the handshake: "@ + reason.name_text()
            },
            TransportError::UnexpectedHandshake => {
                "peer sent a message that is invalid for the handshake state"@
            },
            TransportError::UnexpectedStreamKind(kind) => {
                "peer sent unknown stream type "@ + crate::text::decimal(kind as nat)
            },
            TransportError::HandshakeBindingMismatch => {
                "peer handshake was not bound to the authenticated connection"@
            },
            TransportError::InvalidFrameLimit => "the negotiated frame limit is invalid"@,
        }
    }

    /// The error in words.
    pub fn message(&self) -> (message: String)
        ensures
            message@ == self.text(),
    {
        let mut message = String::new();
        match self {
            TransportError::MissingPeerCertificate => {
                message.append("peer did not present a certificate");
            },
            TransportError::UntrustedCertificate => {
                message.append("peer certificate is not paired");
            },
            TransportError::UnknownPeer(node) => {
                message.append("node `");
                message.append(node.as_str());
                message.append("` is not paired");
            },
            TransportError::NodeIdentityMismatch { certificate, claimed } => {
                message.append("certificate belongs to `");
                message.append(certificate.as_str());
                message.append("`, but the peer claimed `");
                message.append(claimed.as_str());
                message.append("`");
            },
            TransportError::VersionMismatch => {
                message.append("peer uses an incompatible protocol version");
            },
            TransportError::ReplayDetected => {
                message.append("peer replayed a previously accepted handshake");
            },
            TransportError::Rejected(reason) => {
                message.append("peer rejected the handshake: ");
                message.append(reason.name());
            },
            TransportError::UnexpectedHandshake => {
                message.append("peer sent a message that is invalid for the handshake state");
            },
            TransportError::UnexpectedStreamKind(kind) => {
                message.append("peer sent unknown stream type ");
                push_decimal(&mut message, *kind as u64);
            },
            TransportError::HandshakeBindingMismatch => {
                message.append("peer handshake was not bound to the authenticated connection");
            },
            TransportError::InvalidFrameLimit => {
                message.append("the negotiated frame limit is invalid");
            },
        }
        assert(message@ =~= self.text());
        message
    }
}

} // verus!
