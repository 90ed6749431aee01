//! What a handshake establishes, and how connections are tried again.

use vstd::prelude::*;

use crate::protocol::message::{ProtocolVersion, RejectReason};
use crate::transport::config::PolicyView;
use crate::transport::handshake::{
    ClientDecisionView, Closing, ErrorView, InfoView, ServerDecisionView, SessionProfile,
};

verus! {

/// A client says who it is, what it can do and how large its frames may be, in
/// version 1.3, with its nonce.
pub proof fn law_hellos_say_who_calls(
    node: Seq<char>,
    profile: SessionProfile,
    limit: u32,
    nonce: Seq<u8>,
)
    ensures
        ({
            let hello = crate::transport::handshake::hello_of(node, profile, limit, nonce);
            &&& hello.version == (ProtocolVersion { major: 1, minor: 3 })
            &&& hello.node == node
            &&& hello.nonce == nonce
            &&& hello.platform == profile.platform
            &&& hello.capabilities == profile.capabilities
            &&& hello.maximum_frame_bytes == limit
        }),
{
}

/// A server refuses a hello in the name of another node than its certificate, then
/// one in another version, then one that it has heard before, and no other. Each is
/// told to the client and closes the connection for its reason. To all others it
/// answers with the session, itself, both nonces, its platform, what both can do and
/// the smaller of the two frame limits.
pub proof fn law_servers_accept_fresh_hellos_of_the_caller(
    local: Seq<char>,
    profile: SessionProfile,
    limit: int,
    entries: Seq<(Seq<char>, Seq<u8>)>,
    certificate: Seq<char>,
    hello: crate::protocol::message::HelloView,
    session: u128,
    nonce: Seq<u8>,
)
    requires
        0 < limit <= u32::MAX,
    ensures
        ({
            let decision = crate::transport::handshake::answer(
                local,
                profile,
                limit,
                entries,
                certificate,
                hello,
                session,
                nonce,
            );
            let own = hello.node == certificate;
            let current = hello.version.major == 1 && hello.version.minor == 3;
            let known = entries.contains((hello.node, hello.nonce));
            &&& decision is Accept <==> own && current && !known
            &&& !own ==> decision == (ServerDecisionView::Refuse {
                rejection: Some(RejectReason::AuthenticationFailed),
                closing: Closing::NodeIdentity,
                error: ErrorView::NodeIdentityMismatch { certificate, claimed: hello.node },
            })
            &&& own && !current ==> decision == (ServerDecisionView::Refuse {
                rejection: Some(RejectReason::VersionMismatch),
                closing: Closing::Version,
                error: ErrorView::VersionMismatch,
            })
            &&& own && current && known ==> decision == (ServerDecisionView::Refuse {
                rejection: Some(RejectReason::ReplayDetected),
                closing: Closing::Replay,
                error: ErrorView::ReplayDetected,
            })
            &&& decision matches ServerDecisionView::Accept {
                reply,
                info,
                maximum_frame_bytes,
            } ==> {
                &&& maximum_frame_bytes <= limit
                &&& maximum_frame_bytes <= hello.maximum_frame_bytes
                &&& maximum_frame_bytes == limit || maximum_frame_bytes
                    == hello.maximum_frame_bytes
                &&& info.peer == certificate
                &&& info.session_id == session
                &&& info.peer_platform == hello.platform
                &&& info.negotiated_capabilities.keyboard == (profile.capabilities.keyboard
                    && hello.capabilities.keyboard)
                &&& info.negotiated_capabilities.relative_pointer == (
                profile.capabilities.relative_pointer && hello.capabilities.relative_pointer)
                &&& info.negotiated_capabilities.absolute_pointer == (
                profile.capabilities.absolute_pointer && hello.capabilities.absolute_pointer)
                &&& info.negotiated_capabilities.clipboard_text == (
                profile.capabilities.clipboard_text && hello.capabilities.clipboard_text)
                &&& reply matches crate::protocol::message::HandshakeView::Accepted {
                    session_id,
                    controller,
                    client_nonce,
                    server_nonce,
                    platform,
                    negotiated_capabilities,
                    maximum_frame_bytes: told,
                    heartbeat_interval_ms,
                } && session_id == session && controller == local && client_nonce == hello.nonce
                    && server_nonce == nonce && platform == profile.platform
                    && negotiated_capabilities == info.negotiated_capabilities && told
                    == maximum_frame_bytes && heartbeat_interval_ms == 10_000
            }
        }),
{
}

/// A client takes an answer only from the node that it called, to the nonce that it
/// sent, with frames that it allows; it then has the session that was answered.
pub proof fn law_clients_take_the_answer_to_their_call(
    peer: Seq<char>,
    nonce: Seq<u8>,
    limit: int,
    reply: crate::protocol::message::HandshakeView,
)
    ensures
        ({
            let decision = crate::transport::handshake::outcome(peer, nonce, limit, reply);
            match reply {
                crate::protocol::message::HandshakeView::Accepted {
                    session_id,
                    controller,
                    client_nonce,
                    server_nonce,
                    platform,
                    negotiated_capabilities,
                    maximum_frame_bytes,
                    heartbeat_interval_ms,
                } => {
                    let bound = controller == peer && client_nonce == nonce;
                    &&& !bound ==> decision == (ClientDecisionView::Refuse {
                        closing: Closing::HandshakeBinding,
                        error: ErrorView::HandshakeBindingMismatch,
                    })
                    &&& bound && maximum_frame_bytes > limit ==> decision == (
                    ClientDecisionView::Refuse {
                        closing: Closing::FrameLimit,
                        error: ErrorView::InvalidFrameLimit,
                    })
                    &&& bound && maximum_frame_bytes <= limit ==> decision == (
                    ClientDecisionView::Established {
                        info: InfoView {
                            peer: controller,
                            session_id,
                            negotiated_capabilities,
                            peer_platform: platform,
                        },
                        maximum_frame_bytes: maximum_frame_bytes as int,
                    })
                },
                crate::protocol::message::HandshakeView::Rejected { reason } => decision == (
                ClientDecisionView::Refuse {
                    closing: Closing::Unforced,
                    error: ErrorView::Rejected(reason),
                }),
                crate::protocol::message::HandshakeView::Hello(_) => decision == (
                ClientDecisionView::Refuse {
                    closing: Closing::Unforced,
                    error: ErrorView::UnexpectedHandshake,
                }),
            }
        }),
{
}

/// Doubts about who the other side is close with code 1, broken rules with code 2.
pub proof fn law_connections_close_with_a_code(closing: Closing)
    ensures
        closing.close_code() == Some(1u32) <==> closing is NodeIdentity || closing is Replay
            || closing is HandshakeBinding,
        closing.close_code() == Some(2u32) <==> closing is Handshake || closing is Version
            || closing is FrameLimit,
        closing.close_code() is None <==> closing is Unforced,
{
}

/// The newest 1024 handshakes are remembered: a new one goes last, and only beyond
/// that number the oldest is forgotten.
pub proof fn law_the_newest_handshakes_are_remembered(
    entries: Seq<(Seq<char>, Seq<u8>)>,
    entry: (Seq<char>, Seq<u8>),
)
    ensures
        ({
            let after = crate::transport::replay::remembered(entries, entry);
            &&& after.last() == entry
            &&& entries.len() < 1024 ==> after.len() == entries.len() + 1 && after.drop_last()
                == entries
            &&& entries.len() >= 1024 ==> after.len() == entries.len() && after.drop_last()
                == entries.skip(1)
        }),
{
    let after = crate::transport::replay::remembered(entries, entry);
    if entries.len() < 1024 {
        assert(after.drop_last() =~= entries);
    } else {
        assert(after.drop_last() =~= entries.skip(1));
    }
}

/// The delays between attempts start with the initial one and double from attempt
/// to attempt until the maximum is reached; after 31 doublings they stay.
pub proof fn law_reconnect_delays_double(policy: PolicyView, attempt: u32)
    requires
        policy.is_valid(),
        attempt < u32::MAX,
    ensures
        policy.delay(0) == policy.initial_delay,
        attempt < 31 && 2 * policy.delay(attempt) <= policy.maximum_delay ==> policy.delay(
            (attempt + 1) as u32,
        ) == 2 * policy.delay(attempt),
        attempt < 31 && 2 * policy.delay(attempt) > policy.maximum_delay ==> policy.delay(
            (attempt + 1) as u32,
        ) == policy.maximum_delay,
        attempt >= 31 ==> policy.delay((attempt + 1) as u32) == policy.delay(31),
{
    crate::transport::config::law_reconnect_delays_are_bounded(policy, attempt);
    if attempt < 31 {
        let a = vstd::arithmetic::power2::pow2(attempt as nat);
        let b = vstd::arithmetic::power2::pow2((attempt + 1) as nat);
        vstd::arithmetic::power2::lemma_pow2_unfold((attempt + 1) as nat);
        assert(b == 2 * a);
        let initial = policy.initial_delay as int;
        assert(initial * b == 2 * (initial * a)) by (nonlinear_arith)
            requires
                b == 2 * a,
        ;
    }
}

} // verus!
