//! The local identity and the peers that it trusts.

use vstd::prelude::*;
use vstd::string::*;

use crate::digest::same_digest;
use crate::domain::identity::NodeId;
use crate::encoding::{decode_standard, encode_standard, MAX_ENCODABLE_BYTES};
use crate::identity::pairing::{
    certificate_fingerprint, copy_bytes, PairingBundle, MAX_ANCHOR_BYTES,
};
use crate::text::push_decimal;

verus! {

pub const CREDENTIAL_VERSION: u8 = 1;

pub const TRUST_VERSION: u8 = 1;

pub const MAX_TRUSTED_PEERS: usize = 256;

/// The credentials of this node.
pub struct LocalIdentity {
    node: NodeId,
    trust_anchor: Vec<u8>,
    certificate: Vec<u8>,
    private_key: Vec<u8>,
}

pub ghost struct IdentityView {
    pub node: Seq<char>,
    pub trust_anchor: Seq<u8>,
    pub certificate: Seq<u8>,
    pub private_key: Seq<u8>,
}

impl View for LocalIdentity {
    type V = IdentityView;

    closed spec fn view(&self) -> IdentityView {
        IdentityView {
            node: self.node@,
            trust_anchor: self.trust_anchor@,
            certificate: self.certificate@,
            private_key: self.private_key@,
        }
    }
}

impl Clone for LocalIdentity {
    fn clone(&self) -> (copy: LocalIdentity)
        ensures
            copy@ == self@,
    {
        LocalIdentity {
            node: self.node.clone(),
            trust_anchor: copy_bytes(self.trust_anchor.as_slice()),
            certificate: copy_bytes(self.certificate.as_slice()),
            private_key: copy_bytes(self.private_key.as_slice()),
        }
    }
}

/// The credentials as they are stored, with the material in Base64.
pub struct CredentialFile {
    pub version: u8,
    pub node: NodeId,
    pub trust_anchor: String,
    pub certificate: String,
    pub private_key: String,
}

/// The bytes of stored material, which is never empty.
pub open spec fn material(encoded: Seq<char>) -> Result<Seq<u8>, IdentityErrorView> {
    match crate::encoding::standard_base64_bytes(encoded) {
        None => Err(IdentityErrorView::InvalidCredentialEncoding),
        Some(bytes) => if bytes.len() == 0 {
            Err(IdentityErrorView::EmptyCredentialMaterial)
        } else {
            Ok(bytes)
        },
    }
}

/// The identity that stored credentials are accepted as.
pub open spec fn accepted_identity(file: CredentialFile, expected: Seq<char>) -> Result<
    IdentityView,
    IdentityErrorView,
> {
    if file.version != CREDENTIAL_VERSION {
        Err(IdentityErrorView::UnsupportedCredentialVersion(file.version))
    } else if file.node@ != expected {
        Err(IdentityErrorView::NodeMismatch { expected, actual: file.node@ })
    } else {
        match material(file.trust_anchor@) {
            Err(error) => Err(error),
            Ok(trust_anchor) => match material(file.certificate@) {
                Err(error) => Err(error),
                Ok(certificate) => match material(file.private_key@) {
                    Err(error) => Err(error),
                    Ok(private_key) => Ok(
                        IdentityView { node: expected, trust_anchor, certificate, private_key },
                    ),
                },
            },
        }
    }
}

impl LocalIdentity {
    /// An identity of newly made credentials.
    pub fn new(
        node: NodeId,
        trust_anchor: Vec<u8>,
        certificate: Vec<u8>,
        private_key: Vec<u8>,
    ) -> (identity: LocalIdentity)
        ensures
            identity@ == (IdentityView {
                node: node@,
                trust_anchor: trust_anchor@,
                certificate: certificate@,
                private_key: private_key@,
            }),
    {
        LocalIdentity { node, trust_anchor, certificate, private_key }
    }

    pub fn node(&self) -> (node: &NodeId)
        ensures
            node@ == self@.node,
    {
        &self.node
    }

    /// What another node needs to trust this one.
    pub fn pairing_bundle(&self) -> (bundle: PairingBundle)
        requires
            self@.trust_anchor.len() <= MAX_ANCHOR_BYTES,
        ensures
            bundle@ == (crate::identity::pairing::BundleView {
                node: self@.node,
                trust_anchor: self@.trust_anchor,
            }),
    {
        PairingBundle::new(self.node.clone(), copy_bytes(self.trust_anchor.as_slice()))
    }

    /// The leaf certificate and the trust anchor that it is issued by.
    pub fn certificate_chain(&self) -> (chain: (&[u8], &[u8]))
        ensures
            chain.0@ == self@.certificate,
            chain.1@ == self@.trust_anchor,
    {
        (self.certificate.as_slice(), self.trust_anchor.as_slice())
    }

    pub fn private_key_der(&self) -> (key: &[u8])
        ensures
            key@ == self@.private_key,
    {
        self.private_key.as_slice()
    }

    /// Accepts stored credentials for the expected node.
    pub fn from_file(file: CredentialFile, expected_node: &NodeId) -> (result: Result<
        LocalIdentity,
        IdentityError,
    >)
        ensures
            match result {
                Ok(identity) => accepted_identity(file, expected_node@) == Ok::<
                    IdentityView,
                    IdentityErrorView,
                >(identity@),
                Err(error) => accepted_identity(file, expected_node@) == Err::<
                    IdentityView,
                    IdentityErrorView,
                >(error@),
            },
    {
        if file.version != CREDENTIAL_VERSION {
            return Err(IdentityError::UnsupportedCredentialVersion(file.version));
        }
        if file.node != *expected_node {
            return Err(
                IdentityError::NodeMismatch { expected: expected_node.clone(), actual: file.node },
            );
        }
        let trust_anchor = match decode_material(file.trust_anchor.as_str()) {
            Ok(bytes) => bytes,
            Err(error) => {
                return Err(error);
            },
        };
        let certificate = match decode_material(file.certificate.as_str()) {
            Ok(bytes) => bytes,
            Err(error) => {
                return Err(error);
            },
        };
        let private_key = match decode_material(file.private_key.as_str()) {
            Ok(bytes) => bytes,
            Err(error) => {
                return Err(error);
            },
        };
        Ok(
            LocalIdentity {
                node: expected_node.clone(),
                trust_anchor,
                certificate,
                private_key,
            },
        )
    }

    /// The credentials as they are stored. They are accepted as this identity
    /// again.
    pub fn to_file(&self) -> (file: CredentialFile)
        requires
            self@.trust_anchor.len() <= MAX_ENCODABLE_BYTES,
            self@.certificate.len() <= MAX_ENCODABLE_BYTES,
            self@.private_key.len() <= MAX_ENCODABLE_BYTES,
        ensures
            file.version == CREDENTIAL_VERSION,
            file.node@ == self@.node,
            file.trust_anchor@ == crate::encoding::standard_base64(self@.trust_anchor),
            file.certificate@ == crate::encoding::standard_base64(self@.certificate),
            file.private_key@ == crate::encoding::standard_base64(self@.private_key),
            self@.trust_anchor.len() > 0 && self@.certificate.len() > 0 && self@.private_key.len()
                > 0 ==> accepted_identity(file, self@.node) == Ok::<
                IdentityView,
                IdentityErrorView,
            >(self@),
    {
        CredentialFile {
            version: CREDENTIAL_VERSION,
            node: self.node.clone(),
            trust_anchor: encode_standard(self.trust_anchor.as_slice()),
            certificate: encode_standard(self.certificate.as_slice()),
            private_key: encode_standard(self.private_key.as_slice()),
        }
    }
}

fn decode_material(encoded: &str) -> (result: Result<Vec<u8>, IdentityError>)
    ensures
        match result {
            Ok(bytes) => material(encoded@) == Ok::<Seq<u8>, IdentityErrorView>(bytes@),
            Err(error) => material(encoded@) == Err::<Seq<u8>, IdentityErrorView>(error@),
        },
{
    let bytes = match decode_standard(encoded) {
        Ok(bytes) => bytes,
        Err(_) => {
            return Err(IdentityError::InvalidCredentialEncoding);
        },
    };
    if bytes.is_empty() {
        return Err(IdentityError::EmptyCredentialMaterial);
    }
    Ok(bytes)
}

/// Why stored credentials are refused.
#[derive(Debug, PartialEq, Eq)]
pub enum IdentityError {
    UnsupportedCredentialVersion(u8),
    NodeMismatch { expected: NodeId, actual: NodeId },
    InvalidCredentialEncoding,
    EmptyCredentialMaterial,
}

pub ghost enum IdentityErrorView {
    UnsupportedCredentialVersion(u8),
    NodeMismatch { expected: Seq<char>, actual: Seq<char> },
    InvalidCredentialEncoding,
    EmptyCredentialMaterial,
}

impl View for IdentityError {
    type V = IdentityErrorView;

    open spec fn view(&self) -> IdentityErrorView {
        match self {
            IdentityError::UnsupportedCredentialVersion(version) => {
                IdentityErrorView::UnsupportedCredentialVersion(*version)
            },
            IdentityError::NodeMismatch { expected, actual } => IdentityErrorView::NodeMismatch {
                expected: expected@,
                actual: actual@,
            },
            IdentityError::InvalidCredentialEncoding => {
                IdentityErrorView::InvalidCredentialEncoding
            },
            IdentityError::EmptyCredentialMaterial => IdentityErrorView::EmptyCredentialMaterial,
        }
    }
}

/// A node with the certificate that it must present.
#[derive(Debug, PartialEq, Eq)]
pub struct TrustedPeer {
    node: NodeId,
    trust_anchor: Vec<u8>,
    fingerprint: [u8; 32],
}

pub ghost struct PeerView {
    pub node: Seq<char>,
    pub trust_anchor: Seq<u8>,
}

impl PeerView {
    /// The digest of the certificate.
    pub open spec fn fingerprint(self) -> Seq<u8> {
        crate::digest::sha256_of(self.trust_anchor)
    }
}

impl View for TrustedPeer {
    type V = PeerView;

    closed spec fn view(&self) -> PeerView {
        PeerView { node: self.node@, trust_anchor: self.trust_anchor@ }
    }
}

/// A trusted peer as it is stored, with the certificate in Base64.
#[derive(Debug, PartialEq, Eq)]
pub struct PeerFile {
    pub version: u8,
    pub node: NodeId,
    pub trust_anchor: String,
}

/// The peer that a stored one is accepted as.
pub open spec fn accepted_peer(file: PeerFile) -> Result<PeerView, PeerFileError> {
    if file.version != TRUST_VERSION {
        Err(PeerFileError::UnsupportedVersion(file.version))
    } else {
        match crate::encoding::standard_base64_bytes(file.trust_anchor@) {
            None => Err(PeerFileError::InvalidCertificateEncoding),
            Some(bytes) => if bytes.len() == 0 {
                Err(PeerFileError::EmptyCertificate)
            } else {
                Ok(PeerView { node: file.node@, trust_anchor: bytes })
            },
        }
    }
}

impl TrustedPeer {
    #[verifier::type_invariant]
    closed spec fn knows_its_fingerprint(self) -> bool {
        self.fingerprint@ == self@.fingerprint()
    }

    fn new(node: NodeId, trust_anchor: Vec<u8>) -> (peer: TrustedPeer)
        ensures
            peer@ == (PeerView { node: node@, trust_anchor: trust_anchor@ }),
    {
        let fingerprint = certificate_fingerprint(trust_anchor.as_slice());
        TrustedPeer { node, trust_anchor, fingerprint }
    }

    pub fn node(&self) -> (node: &NodeId)
        ensures
            node@ == self@.node,
    {
        &self.node
    }

    pub fn trust_anchor_der(&self) -> (certificate: &[u8])
        ensures
            certificate@ == self@.trust_anchor,
    {
        self.trust_anchor.as_slice()
    }

    pub fn fingerprint(&self) -> (fingerprint: [u8; 32])
        ensures
            fingerprint@ == self@.fingerprint(),
    {
        proof {
            use_type_invariant(self);
        }
        self.fingerprint
    }

    /// Accepts a stored peer.
    pub fn from_file(file: PeerFile) -> (result: Result<TrustedPeer, PeerFileError>)
        ensures
            match result {
                Ok(peer) => accepted_peer(file) == Ok::<PeerView, PeerFileError>(peer@),
                Err(error) => accepted_peer(file) == Err::<PeerView, PeerFileError>(error),
            },
    {
        if file.version != TRUST_VERSION {
            return Err(PeerFileError::UnsupportedVersion(file.version));
        }
        let trust_anchor = match decode_standard(file.trust_anchor.as_str()) {
            Ok(bytes) => bytes,
            Err(_) => {
                return Err(PeerFileError::InvalidCertificateEncoding);
            },
        };
        if trust_anchor.is_empty() {
            return Err(PeerFileError::EmptyCertificate);
        }
        Ok(TrustedPeer::new(file.node, trust_anchor))
    }

    /// The peer as it is stored. It is accepted as this peer again.
    pub fn to_file(&self) -> (file: PeerFile)
        requires
            self@.trust_anchor.len() <= MAX_ENCODABLE_BYTES,
        ensures
            file.version == TRUST_VERSION,
            file.node@ == self@.node,
            file.trust_anchor@ == crate::encoding::standard_base64(self@.trust_anchor),
            self@.trust_anchor.len() > 0 ==> accepted_peer(file) == Ok::<PeerView, PeerFileError>(
                self@,
            ),
    {
        PeerFile {
            version: TRUST_VERSION,
            node: self.node.clone(),
            trust_anchor: encode_standard(self.trust_anchor.as_slice()),
        }
    }
}

impl Clone for TrustedPeer {
    fn clone(&self) -> (copy: TrustedPeer)
        ensures
            copy@ == self@,
    {
        proof {
            use_type_invariant(self);
        }
        TrustedPeer {
            node: self.node.clone(),
            trust_anchor: copy_bytes(self.trust_anchor.as_slice()),
            fingerprint: self.fingerprint,
        }
    }
}

/// Why a stored peer is refused.
#[derive(Clone, Copy, Debug, PartialEq, Eq, Structural)]
pub enum PeerFileError {
    UnsupportedVersion(u8),
    InvalidCertificateEncoding,
    EmptyCertificate,
}

/// The peers that this node trusts, in the order of their identifiers.
#[derive(Debug)]
pub struct TrustStore {
    peers: Vec<TrustedPeer>,
}

pub open spec fn peer_views(peers: Seq<TrustedPeer>) -> Seq<PeerView> {
    peers.map_values(|peer: TrustedPeer| peer@)
}

impl View for TrustStore {
    type V = Seq<PeerView>;

    closed spec fn view(&self) -> Seq<PeerView> {
        peer_views(self.peers@)
    }
}

/// The peers stand in the order of their identifiers, each node once.
pub open spec fn is_ordered(peers: Seq<PeerView>) -> bool {
    forall|i: int, j: int|
        0 <= i < j < peers.len() ==> crate::session::roster::precedes(
            (#[trigger] peers[i]).node,
            (#[trigger] peers[j]).node,
        )
}

/// No two peers have the same certificate digest.
pub open spec fn has_unique_certificates(peers: Seq<PeerView>) -> bool {
    forall|i: int, j: int|
        0 <= i < j < peers.len() ==> (#[trigger] peers[i]).fingerprint() != (
        #[trigger] peers[j]).fingerprint()
}

/// Up to 256 peers in order, each node and each certificate once.
pub open spec fn is_trust_store(peers: Seq<PeerView>) -> bool {
    &&& peers.len() <= MAX_TRUSTED_PEERS
    &&& is_ordered(peers)
    &&& has_unique_certificates(peers)
}

/// The node is among the peers.
pub open spec fn knows_node(peers: Seq<PeerView>, node: Seq<char>) -> bool {
    exists|i: int| 0 <= i < peers.len() && (#[trigger] peers[i]).node == node
}

/// What trusting a bundle comes to: a peer to add, nothing to do, or a refusal.
pub open spec fn trust_outcome(
    peers: Seq<PeerView>,
    bundle: crate::identity::pairing::BundleView,
    typed: Seq<char>,
) -> Result<Option<PeerView>, TrustErrorView> {
    let peer = PeerView { node: bundle.node, trust_anchor: bundle.trust_anchor };
    if crate::identity::pairing::normalized(typed) != crate::identity::pairing::without_hyphens(
        crate::identity::pairing::code_text(peer.fingerprint()),
    ) {
        Err(TrustErrorView::PairingCodeMismatch)
    } else if peers.len() >= MAX_TRUSTED_PEERS && !knows_node(peers, bundle.node) {
        Err(TrustErrorView::TooManyPeers { maximum: MAX_TRUSTED_PEERS })
    } else if exists|i: int|
        0 <= i < peers.len() && (#[trigger] peers[i]).node == bundle.node && peers[i].fingerprint()
            == peer.fingerprint() {
        Ok(None)
    } else if knows_node(peers, bundle.node) {
        Err(TrustErrorView::NodeAlreadyTrusted(bundle.node))
    } else if exists|i: int|
        0 <= i < peers.len() && (#[trigger] peers[i]).fingerprint() == peer.fingerprint() {
        let i = choose|i: int|
            0 <= i < peers.len() && (#[trigger] peers[i]).fingerprint() == peer.fingerprint();
        Err(TrustErrorView::CertificateAlreadyTrusted(peers[i].node))
    } else {
        Ok(Some(peer))
    }
}

/// `longer` is `peers` with one peer more.
pub open spec fn is_extended(peers: Seq<PeerView>, peer: PeerView, longer: Seq<PeerView>) -> bool {
    exists|k: int| 0 <= k <= peers.len() && longer == #[trigger] peers.insert(k, peer)
}

/// `shorter` is `peers` without the one of `node`.
pub open spec fn is_reduced(
    peers: Seq<PeerView>,
    node: Seq<char>,
    shorter: Seq<PeerView>,
) -> bool {
    exists|k: int|
        0 <= k < peers.len() && (#[trigger] peers[k]).node == node && shorter == peers.remove(k)
}

/// An earlier peer belongs to the same node.
pub open spec fn repeats_node(peers: Seq<PeerView>, index: int) -> bool {
    exists|i: int| 0 <= i < index && (#[trigger] peers[i]).node == peers[index].node
}

/// `index` is where a node stands that was seen before, for the first time.
pub open spec fn is_first_repeat(peers: Seq<PeerView>, index: int) -> bool {
    &&& 0 <= index < peers.len()
    &&& repeats_node(peers, index)
    &&& forall|i: int| 0 <= i < index ==> !#[trigger] repeats_node(peers, i)
}

/// Both lists hold the same peers.
pub open spec fn has_same_peers(a: Seq<PeerView>, b: Seq<PeerView>) -> bool {
    a.len() == b.len() && forall|peer: PeerView| #[trigger] a.contains(peer) <==> b.contains(peer)
}

/// The peers at `i` and `j` have one certificate, and the node of the first comes
/// before that of the second.
pub open spec fn shares_certificate(peers: Seq<PeerView>, i: int, j: int) -> bool {
    &&& 0 <= i < peers.len()
    &&& 0 <= j < peers.len()
    &&& crate::session::roster::precedes(peers[i].node, peers[j].node)
    &&& peers[i].fingerprint() == peers[j].fingerprint()
}

/// In the order of nodes, the peer at `j` is the first with a certificate that a
/// peer before it has, and the peer at `i` is the one that has it.
pub open spec fn is_first_sharing(peers: Seq<PeerView>, i: int, j: int) -> bool {
    &&& shares_certificate(peers, i, j)
    &&& forall|a: int, b: int| #[trigger]
        shares_certificate(peers, a, b) ==> !crate::session::roster::precedes(
            peers[b].node,
            peers[j].node,
        )
}

/// Why stored peers, taken in this order, are refused as a store.
pub open spec fn is_store_fault(stored: Seq<PeerView>, error: TrustErrorView) -> bool {
    match error {
        TrustErrorView::DuplicateNodeFile { index } => index <= MAX_TRUSTED_PEERS
            && is_first_repeat(stored, index as int),
        TrustErrorView::TooManyPeers { maximum } => maximum == MAX_TRUSTED_PEERS && stored.len()
            > MAX_TRUSTED_PEERS && forall|i: int|
            0 <= i <= MAX_TRUSTED_PEERS ==> !#[trigger] repeats_node(stored, i),
        TrustErrorView::CertificateAlreadyTrusted(node) => {
            &&& stored.len() <= MAX_TRUSTED_PEERS
            &&& forall|i: int| 0 <= i < stored.len() ==> !#[trigger] repeats_node(stored, i)
            &&& exists|i: int, j: int| #[trigger]
                is_first_sharing(stored, i, j) && stored[i].node == node
        },
        _ => false,
    }
}

impl TrustStore {
    #[verifier::type_invariant]
    pub open spec fn is_valid(self) -> bool {
        is_trust_store(self@)
    }

    /// A store that trusts nobody.
    pub fn empty() -> (store: TrustStore)
        ensures
            store@ == Seq::<PeerView>::empty(),
    {
        let peers: Vec<TrustedPeer> = Vec::new();
        assert(peer_views(peers@) =~= Seq::<PeerView>::empty());
        TrustStore { peers }
    }

    /// A store of the peers that were found, in the order in which they were.
    pub fn open(stored: Vec<TrustedPeer>) -> (result: Result<TrustStore, TrustError>)
        ensures
            match result {
                Ok(store) => {
                    &&& has_same_peers(store@, peer_views(stored@))
                    &&& is_trust_store(store@)
                    &&& forall|i: int|
                        0 <= i < stored@.len() ==> !#[trigger] repeats_node(
                            peer_views(stored@),
                            i,
                        )
                },
                Err(error) => is_store_fault(peer_views(stored@), error@),
            },
    {
        let ghost views = peer_views(stored@);
        let mut peers: Vec<TrustedPeer> = Vec::new();
        let mut index: usize = 0;
        assert(peer_views(peers@) =~= Seq::<PeerView>::empty());
        assert(views.take(0) =~= Seq::<PeerView>::empty());
        while index < stored.len()
            invariant
                index <= stored@.len(),
                index <= MAX_TRUSTED_PEERS,
                views == peer_views(stored@),
                is_ordered(peer_views(peers@)),
                has_same_peers(peer_views(peers@), views.take(index as int)),
                forall|i: int| 0 <= i < index ==> !#[trigger] repeats_node(views, i),
            decreases stored@.len() - index,
        {
            let peer = stored[index].clone();
            let ghost before = peer_views(peers@);
            assert(views[index as int] == peer@);
            let place = match insertion_place(&peers, &peer.node) {
                Some(place) => place,
                None => {
                    proof {
                        let at = choose|i: int|
                            0 <= i < before.len() && (#[trigger] before[i]).node == peer@.node;
                        assert(before.contains(before[at]));
                        let seen = views.take(index as int);
                        assert(seen.contains(before[at]));
                        let j = choose|j: int| 0 <= j < seen.len() && seen[j] == before[at];
                        assert(views[j].node == views[index as int].node);
                        assert(repeats_node(views, index as int));
                    }
                    return Err(TrustError::DuplicateNodeFile { index });
                },
            };
            proof {
                if repeats_node(views, index as int) {
                    let j = choose|j: int|
                        0 <= j < index && (#[trigger] views[j]).node == views[index as int].node;
                    let seen = views.take(index as int);
                    assert(seen[j] == views[j]);
                    assert(seen.contains(views[j]));
                    assert(before.contains(views[j]));
                    let at = choose|i: int| 0 <= i < before.len() && before[i] == views[j];
                    assert(before[at].node == peer@.node);
                }
            }
            peers.insert(place, peer);
            proof {
                let after = peer_views(peers@);
                assert(after =~= before.insert(place as int, views[index as int]));
                lemma_insertion_keeps_order(before, views[index as int], place as int);
                assert(views.take(index + 1) =~= views.take(index as int).push(
                    views[index as int],
                ));
                lemma_insertion_adds(
                    before,
                    views.take(index as int),
                    views[index as int],
                    place as int,
                );
            }
            if peers.len() > MAX_TRUSTED_PEERS {
                return Err(TrustError::TooManyPeers { maximum: MAX_TRUSTED_PEERS });
            }
            index += 1;
        }
        let ghost sorted = peer_views(peers@);
        assert(views.take(index as int) =~= views);
        match ensure_unique_certificates(&peers) {
            Ok(()) => Ok(TrustStore { peers }),
            Err(error) => {
                proof {
                    let (i, j) = choose|i: int, j: int| #[trigger]
                        is_first_sharing(sorted, i, j) && sorted[i].node
                            == error@->CertificateAlreadyTrusted_0;
                    lemma_first_sharing_in_any_order(sorted, views, i, j);
                }
                Err(error)
            },
        }
    }

    /// Trusts the node of a bundle, once its code was confirmed. Returns the
    /// peer to store, or `None` where it was trusted already.
    pub fn trust(&mut self, bundle: PairingBundle, displayed_code: &str) -> (result: Result<
        Option<TrustedPeer>,
        TrustError,
    >)
        ensures
            match trust_outcome(old(self)@, bundle@, displayed_code@) {
                Err(error) => final(self)@ == old(self)@ && (result matches Err(refusal)
                    && refusal@ == error),
                Ok(None) => final(self)@ == old(self)@ && (result matches Ok(None)),
                Ok(Some(peer)) => is_extended(old(self)@, peer, final(self)@) && (result matches Ok(
                    Some(added),
                ) && added@ == peer),
            },
            is_trust_store(old(self)@),
            is_trust_store(final(self)@),
    {
        proof {
            use_type_invariant(&*self);
        }
        let ghost before = self@;
        if !bundle.code().matches(displayed_code) {
            return Err(TrustError::PairingCodeMismatch);
        }
        let known = self.get(bundle.node());
        if self.peers.len() >= MAX_TRUSTED_PEERS && known.is_none() {
            return Err(TrustError::TooManyPeers { maximum: MAX_TRUSTED_PEERS });
        }
        let fingerprint = bundle.fingerprint();
        if let Some(peer) = known {
            if same_digest(&peer.fingerprint(), &fingerprint) {
                return Ok(None);
            }
            proof {
                lemma_ordered_node_is_unique(before, bundle@.node);
            }
            return Err(TrustError::NodeAlreadyTrusted(bundle.node().clone()));
        }
        if let Some(holder) = self.holder_of(&fingerprint) {
            proof {
                let i = choose|i: int|
                    0 <= i < before.len() && (#[trigger] before[i]).fingerprint() == fingerprint@;
                assert(before[holder as int].fingerprint() == fingerprint@);
                assert(i == holder);
                assert(before[i] == self.peers@[i]@);
            }
            return Err(TrustError::CertificateAlreadyTrusted(self.peers[holder].node.clone()));
        }
        let peer = TrustedPeer::new(bundle.node().clone(), copy_bytes(bundle.trust_anchor()));
        let added = peer.clone();
        let place = match insertion_place(&self.peers, &peer.node) {
            Some(place) => place,
            None => {
                return Ok(None);
            },
        };
        let mut peers: Vec<TrustedPeer> = self.copied_peers();
        peers.insert(place, peer);
        proof {
            let after = peer_views(peers@);
            assert(after =~= before.insert(place as int, added@));
            lemma_insertion_keeps_order(before, added@, place as int);
            lemma_insertion_keeps_certificates(before, added@, place as int);
        }
        self.peers = peers;
        Ok(Some(added))
    }

    /// Stops trusting a node. Returns whether it was trusted.
    pub fn remove(&mut self, node: &NodeId) -> (removed: bool)
        ensures
            removed == knows_node(old(self)@, node@),
            if removed {
                is_reduced(old(self)@, node@, final(self)@)
            } else {
                final(self)@ == old(self)@
            },
            !knows_node(final(self)@, node@),
            is_trust_store(final(self)@),
    {
        proof {
            use_type_invariant(&*self);
        }
        let ghost before = self@;
        let place = match self.place_of(node) {
            Some(place) => place,
            None => {
                return false;
            },
        };
        let mut peers: Vec<TrustedPeer> = self.copied_peers();
        let _ = peers.remove(place);
        proof {
            let after = peer_views(peers@);
            assert(after =~= before.remove(place as int));
            assert forall|i: int, j: int| 0 <= i < j < after.len() implies
                crate::session::roster::precedes(
                (#[trigger] after[i]).node,
                (#[trigger] after[j]).node,
            ) && after[i].fingerprint() != after[j].fingerprint() by {
                let a = if i < place {
                    i
                } else {
                    i + 1
                };
                let b = if j < place {
                    j
                } else {
                    j + 1
                };
                assert(after[i] == before[a] && after[j] == before[b]);
                assert(crate::session::roster::precedes(before[a].node, before[b].node));
            }
            assert forall|i: int| 0 <= i < after.len() implies (#[trigger] after[i]).node
                != node@ by {
                let a = if i < place {
                    i
                } else {
                    i + 1
                };
                assert(after[i] == before[a]);
                if a < place {
                    lemma_ordered_nodes_differ(before, a, place as int);
                } else {
                    lemma_ordered_nodes_differ(before, place as int, a);
                }
            }
            assert(before[place as int].node == node@);
        }
        self.peers = peers;
        true
    }

    /// The trusted peers in the order of their identifiers.
    pub fn peers(&self) -> (peers: &[TrustedPeer])
        ensures
            peer_views(peers@) == self@,
            is_trust_store(self@),
    {
        proof {
            use_type_invariant(self);
        }
        self.peers.as_slice()
    }

    /// The trusted peer of a node.
    pub fn get(&self, node: &NodeId) -> (peer: Option<&TrustedPeer>)
        ensures
            match peer {
                Some(peer) => peer@.node == node@ && self@.contains(peer@),
                None => !knows_node(self@, node@),
            },
    {
        match self.place_of(node) {
            Some(place) => {
                assert(self@[place as int] == self.peers@[place as int]@);
                Some(&self.peers[place])
            },
            None => None,
        }
    }

    fn place_of(&self, node: &NodeId) -> (place: Option<usize>)
        ensures
            match place {
                Some(place) => place < self.peers@.len() && self@[place as int].node == node@
                    && knows_node(self@, node@),
                None => !knows_node(self@, node@),
            },
            self@.len() == self.peers@.len(),
    {
        let mut index: usize = 0;
        while index < self.peers.len()
            invariant
                index <= self.peers@.len(),
                forall|i: int| 0 <= i < index ==> (#[trigger] self@[i]).node != node@,
            decreases self.peers@.len() - index,
        {
            assert(self@[index as int] == self.peers@[index as int]@);
            if self.peers[index].node == *node {
                return Some(index);
            }
            index += 1;
        }
        None
    }

    /// The place of the peer with this certificate digest.
    fn holder_of(&self, fingerprint: &[u8; 32]) -> (place: Option<usize>)
        ensures
            match place {
                Some(place) => place < self.peers@.len() && self@[place as int].fingerprint()
                    == fingerprint@,
                None => forall|i: int|
                    0 <= i < self@.len() ==> (#[trigger] self@[i]).fingerprint() != fingerprint@,
            },
    {
        let mut index: usize = 0;
        while index < self.peers.len()
            invariant
                index <= self.peers@.len(),
                forall|i: int|
                    0 <= i < index ==> (#[trigger] self@[i]).fingerprint() != fingerprint@,
            decreases self.peers@.len() - index,
        {
            assert(self@[index as int] == self.peers@[index as int]@);
            if same_digest(&self.peers[index].fingerprint(), fingerprint) {
                return Some(index);
            }
            index += 1;
        }
        None
    }

    fn copied_peers(&self) -> (peers: Vec<TrustedPeer>)
        ensures
            peer_views(peers@) == self@,
            peers@.len() == self.peers@.len(),
    {
        let mut peers: Vec<TrustedPeer> = Vec::new();
        let mut index: usize = 0;
        assert(peer_views(peers@) =~= self@.take(0));
        while index < self.peers.len()
            invariant
                index <= self.peers@.len(),
                peers@.len() == index,
                peer_views(peers@) == self@.take(index as int),
            decreases self.peers@.len() - index,
        {
            let ghost before = peer_views(peers@);
            peers.push(self.peers[index].clone());
            proof {
                assert(self@[index as int] == self.peers@[index as int]@);
                assert(peer_views(peers@) =~= before.push(self@[index as int]));
                assert(self@.take(index + 1) =~= before.push(self@[index as int]));
            }
            index += 1;
        }
        assert(self@.take(index as int) =~= self@);
        peers
    }
}

impl Clone for TrustStore {
    fn clone(&self) -> (copy: TrustStore)
        ensures
            copy@ == self@,
    {
        proof {
            use_type_invariant(self);
        }
        let peers = self.copied_peers();
        TrustStore { peers }
    }
}

/// Where a peer of this node goes in the order; `None` where it stands already.
fn insertion_place(peers: &Vec<TrustedPeer>, node: &NodeId) -> (place: Option<usize>)
    requires
        is_ordered(peer_views(peers@)),
    ensures
        match place {
            Some(place) => {
                &&& place <= peers@.len()
                &&& !knows_node(peer_views(peers@), node@)
                &&& forall|i: int|
                    0 <= i < place ==> crate::session::roster::precedes(
                        (#[trigger] peer_views(peers@)[i]).node,
                        node@,
                    )
                &&& forall|i: int|
                    place <= i < peers@.len() ==> crate::session::roster::precedes(
                        node@,
                        (#[trigger] peer_views(peers@)[i]).node,
                    )
            },
            None => knows_node(peer_views(peers@), node@),
        },
{
    let ghost views = peer_views(peers@);
    let mut index: usize = 0;
    while index < peers.len() && peers[index].node.precedes(node)
        invariant
            index <= peers@.len(),
            views == peer_views(peers@),
            forall|i: int|
                0 <= i < index ==> crate::session::roster::precedes(
                    (#[trigger] views[i]).node,
                    node@,
                ),
        decreases peers@.len() - index,
    {
        assert(views[index as int] == peers@[index as int]@);
        index += 1;
    }
    if index < peers.len() && peers[index].node == *node {
        assert(views[index as int] == peers@[index as int]@);
        return None;
    }
    proof {
        assert forall|i: int| index <= i < views.len() implies crate::session::roster::precedes(
            node@,
            (#[trigger] views[i]).node,
        ) by {
            assert(views[index as int] == peers@[index as int]@);
            crate::session::roster::lemma_precedes_is_total(views[index as int].node, node@);
            if i > index {
                assert(crate::session::roster::precedes(
                    views[index as int].node,
                    views[i].node,
                ));
                crate::session::roster::lemma_precedes_is_transitive(
                    node@,
                    views[index as int].node,
                    views[i].node,
                );
            }
        }
        assert forall|i: int| 0 <= i < views.len() implies (#[trigger] views[i]).node
            != node@ by {
            crate::session::roster::lemma_precedes_is_irreflexive(node@);
        }
    }
    Some(index)
}

fn ensure_unique_certificates(peers: &Vec<TrustedPeer>) -> (result: Result<(), TrustError>)
    requires
        is_ordered(peer_views(peers@)),
    ensures
        match result {
            Ok(()) => has_unique_certificates(peer_views(peers@)),
            Err(error) => error@ is CertificateAlreadyTrusted && exists|i: int, j: int| #[trigger]
                is_first_sharing(peer_views(peers@), i, j) && peer_views(peers@)[i].node
                    == error@->CertificateAlreadyTrusted_0,
        },
{
    let ghost views = peer_views(peers@);
    let mut later: usize = 0;
    while later < peers.len()
        invariant
            later <= peers@.len(),
            views == peer_views(peers@),
            is_ordered(views),
            forall|i: int, j: int|
                0 <= i < j < later ==> (#[trigger] views[i]).fingerprint() != (
                #[trigger] views[j]).fingerprint(),
        decreases peers@.len() - later,
    {
        let fingerprint = peers[later].fingerprint();
        assert(views[later as int] == peers@[later as int]@);
        let mut earlier: usize = 0;
        while earlier < later
            invariant
                earlier <= later < peers@.len(),
                views == peer_views(peers@),
                is_ordered(views),
                forall|i: int, j: int|
                    0 <= i < j < later ==> (#[trigger] views[i]).fingerprint() != (
                    #[trigger] views[j]).fingerprint(),
                fingerprint@ == views[later as int].fingerprint(),
                forall|i: int|
                    0 <= i < earlier ==> (#[trigger] views[i]).fingerprint() != fingerprint@,
            decreases later - earlier,
        {
            assert(views[earlier as int] == peers@[earlier as int]@);
            if same_digest(&peers[earlier].fingerprint(), &fingerprint) {
                proof {
                    lemma_first_sharing_in_order(views, earlier as int, later as int);
                }
                return Err(TrustError::CertificateAlreadyTrusted(peers[earlier].node.clone()));
            }
            earlier += 1;
        }
        later += 1;
    }
    Ok(())
}

/// In ordered peers a node comes before another only if it stands before it.
proof fn lemma_order_of_places(peers: Seq<PeerView>, i: int, j: int)
    requires
        is_ordered(peers),
        0 <= i < peers.len(),
        0 <= j < peers.len(),
        crate::session::roster::precedes(peers[i].node, peers[j].node),
    ensures
        i < j,
{
    crate::session::roster::lemma_precedes_is_irreflexive(peers[i].node);
    if j < i {
        assert(crate::session::roster::precedes(peers[j].node, peers[i].node));
        crate::session::roster::lemma_precedes_is_transitive(
            peers[i].node,
            peers[j].node,
            peers[i].node,
        );
    }
}

proof fn lemma_first_sharing_in_order(peers: Seq<PeerView>, i: int, j: int)
    requires
        is_ordered(peers),
        0 <= i < j < peers.len(),
        peers[i].fingerprint() == peers[j].fingerprint(),
        forall|a: int, b: int|
            0 <= a < b < j ==> (#[trigger] peers[a]).fingerprint() != (
            #[trigger] peers[b]).fingerprint(),
    ensures
        is_first_sharing(peers, i, j),
{
    assert(crate::session::roster::precedes(peers[i].node, peers[j].node));
    assert forall|a: int, b: int| #[trigger] shares_certificate(peers, a, b) implies
        !crate::session::roster::precedes(peers[b].node, peers[j].node) by {
        lemma_order_of_places(peers, a, b);
        if crate::session::roster::precedes(peers[b].node, peers[j].node) {
            lemma_order_of_places(peers, b, j);
        }
    }
}

/// Which peers share a certificate first does not depend on how they are listed.
proof fn lemma_first_sharing_in_any_order(
    sorted: Seq<PeerView>,
    stored: Seq<PeerView>,
    i: int,
    j: int,
)
    requires
        has_same_peers(sorted, stored),
        is_first_sharing(sorted, i, j),
    ensures
        exists|a: int, b: int| #[trigger]
            is_first_sharing(stored, a, b) && stored[a].node == sorted[i].node,
{
    assert(sorted.contains(sorted[i]) && sorted.contains(sorted[j]));
    let a = choose|a: int| 0 <= a < stored.len() && stored[a] == sorted[i];
    let b = choose|b: int| 0 <= b < stored.len() && stored[b] == sorted[j];
    assert forall|c: int, d: int| #[trigger] shares_certificate(stored, c, d) implies
        !crate::session::roster::precedes(stored[d].node, stored[b].node) by {
        assert(stored.contains(stored[c]) && stored.contains(stored[d]));
        assert(sorted.contains(stored[c]) && sorted.contains(stored[d]));
        let e = choose|e: int| 0 <= e < sorted.len() && sorted[e] == stored[c];
        let f = choose|f: int| 0 <= f < sorted.len() && sorted[f] == stored[d];
        assert(shares_certificate(sorted, e, f));
    }
    assert(is_first_sharing(stored, a, b));
}

proof fn lemma_ordered_nodes_differ(peers: Seq<PeerView>, i: int, j: int)
    requires
        is_ordered(peers),
        0 <= i < j < peers.len(),
    ensures
        peers[i].node != peers[j].node,
{
    assert(crate::session::roster::precedes(peers[i].node, peers[j].node));
    crate::session::roster::lemma_precedes_is_irreflexive(peers[i].node);
}

proof fn lemma_ordered_node_is_unique(peers: Seq<PeerView>, node: Seq<char>)
    requires
        is_ordered(peers),
    ensures
        forall|i: int, j: int|
            0 <= i < peers.len() && 0 <= j < peers.len() && (#[trigger] peers[i]).node == node && (
            #[trigger] peers[j]).node == node ==> i == j,
{
    assert forall|i: int, j: int|
        0 <= i < peers.len() && 0 <= j < peers.len() && (#[trigger] peers[i]).node == node && (
        #[trigger] peers[j]).node == node implies i == j by {
        if i < j {
            lemma_ordered_nodes_differ(peers, i, j);
        } else if j < i {
            lemma_ordered_nodes_differ(peers, j, i);
        }
    }
}

proof fn lemma_insertion_keeps_order(peers: Seq<PeerView>, peer: PeerView, place: int)
    requires
        is_ordered(peers),
        0 <= place <= peers.len(),
        forall|i: int|
            0 <= i < place ==> crate::session::roster::precedes(
                (#[trigger] peers[i]).node,
                peer.node,
            ),
        forall|i: int|
            place <= i < peers.len() ==> crate::session::roster::precedes(
                peer.node,
                (#[trigger] peers[i]).node,
            ),
    ensures
        is_ordered(peers.insert(place, peer)),
{
    let longer = peers.insert(place, peer);
    assert forall|i: int, j: int| 0 <= i < j < longer.len() implies
        crate::session::roster::precedes(
        (#[trigger] longer[i]).node,
        (#[trigger] longer[j]).node,
    ) by {
        if i < place && j < place {
            assert(crate::session::roster::precedes(peers[i].node, peers[j].node));
        } else if i < place && j > place {
            assert(crate::session::roster::precedes(peers[i].node, peers[j - 1].node));
        } else if i > place {
            assert(crate::session::roster::precedes(peers[i - 1].node, peers[j - 1].node));
        } else if i < place {
            assert(crate::session::roster::precedes(peers[i].node, peer.node));
        } else {
            assert(crate::session::roster::precedes(peer.node, peers[j - 1].node));
        }
    }
}

proof fn lemma_insertion_keeps_certificates(peers: Seq<PeerView>, peer: PeerView, place: int)
    requires
        has_unique_certificates(peers),
        0 <= place <= peers.len(),
        forall|i: int|
            0 <= i < peers.len() ==> (#[trigger] peers[i]).fingerprint() != peer.fingerprint(),
    ensures
        has_unique_certificates(peers.insert(place, peer)),
{
    let longer = peers.insert(place, peer);
    assert forall|i: int, j: int| 0 <= i < j < longer.len() implies (
    #[trigger] longer[i]).fingerprint() != (#[trigger] longer[j]).fingerprint() by {
        if i < place && j < place {
            assert(peers[i].fingerprint() != peers[j].fingerprint());
        } else if i < place && j > place {
            assert(peers[i].fingerprint() != peers[j - 1].fingerprint());
        } else if i > place {
            assert(peers[i - 1].fingerprint() != peers[j - 1].fingerprint());
        } else if i < place {
            assert(peers[i].fingerprint() != peer.fingerprint());
        } else {
            assert(peers[j - 1].fingerprint() != peer.fingerprint());
        }
    }
}

proof fn lemma_insertion_adds(
    sorted: Seq<PeerView>,
    listed: Seq<PeerView>,
    peer: PeerView,
    place: int,
)
    requires
        has_same_peers(sorted, listed),
        0 <= place <= sorted.len(),
    ensures
        has_same_peers(sorted.insert(place, peer), listed.push(peer)),
{
    let a = sorted.insert(place, peer);
    let b = listed.push(peer);
    assert forall|other: PeerView| #[trigger] a.contains(other) <==> b.contains(other) by {
        if a.contains(other) {
            let i = choose|i: int| 0 <= i < a.len() && a[i] == other;
            if i == place {
                assert(b[b.len() - 1] == other);
            } else {
                let k = if i < place {
                    i
                } else {
                    i - 1
                };
                assert(sorted[k] == other);
                assert(sorted.contains(other));
                assert(listed.contains(other));
                let j = choose|j: int| 0 <= j < listed.len() && listed[j] == other;
                assert(b[j] == other);
            }
        }
        if b.contains(other) {
            let j = choose|j: int| 0 <= j < b.len() && b[j] == other;
            if j == listed.len() {
                assert(a[place] == other);
            } else {
                assert(listed[j] == other);
                assert(listed.contains(other));
                assert(sorted.contains(other));
                let i = choose|i: int| 0 <= i < sorted.len() && sorted[i] == other;
                if i < place {
                    assert(a[i] == other);
                } else {
                    assert(a[i + 1] == other);
                }
            }
        }
    }
}

/// Why a peer is not trusted, or stored peers are refused.
#[derive(Debug, PartialEq, Eq)]
pub enum TrustError {
    DuplicateNodeFile { index: usize },
    PairingCodeMismatch,
    NodeAlreadyTrusted(NodeId),
    CertificateAlreadyTrusted(NodeId),
    TooManyPeers { maximum: usize },
}

pub ghost enum TrustErrorView {
    DuplicateNodeFile { index: usize },
    PairingCodeMismatch,
    NodeAlreadyTrusted(Seq<char>),
    CertificateAlreadyTrusted(Seq<char>),
    TooManyPeers { maximum: usize },
}

impl View for TrustError {
    type V = TrustErrorView;

    open spec fn view(&self) -> TrustErrorView {
        match self {
            TrustError::DuplicateNodeFile { index } => TrustErrorView::DuplicateNodeFile {
                index: *index,
            },
            TrustError::PairingCodeMismatch => TrustErrorView::PairingCodeMismatch,
            TrustError::NodeAlreadyTrusted(node) => TrustErrorView::NodeAlreadyTrusted(node@),
            TrustError::CertificateAlreadyTrusted(node) => {
                TrustErrorView::CertificateAlreadyTrusted(node@)
            },
            TrustError::TooManyPeers { maximum } => TrustErrorView::TooManyPeers {
                maximum: *maximum,
            },
        }
    }
}

/// A node is trusted only with a code that matches its certificate: whatever is
/// added has a digest that begins with the twelve bytes that the code shows.
pub proof fn law_trust_requires_the_matching_code(
    peers: Seq<PeerView>,
    bundle: crate::identity::pairing::BundleView,
    typed: Seq<char>,
    shown: Seq<u8>,
)
    requires
        trust_outcome(peers, bundle, typed) is Ok,
        shown.len() == 32,
        crate::digest::sha256_of(bundle.trust_anchor).len() == 32,
        crate::identity::pairing::normalized(typed)
            == crate::identity::pairing::without_hyphens(
            crate::identity::pairing::code_text(shown),
        ),
    ensures
        crate::digest::sha256_of(bundle.trust_anchor).take(
            crate::identity::pairing::CODE_BYTES as int,
        ) == shown.take(crate::identity::pairing::CODE_BYTES as int),
{
    crate::identity::pairing::law_a_code_pins_the_digest(
        crate::digest::sha256_of(bundle.trust_anchor),
        shown,
        typed,
    );
}

/// A known node keeps the certificate that it was first trusted with.
pub proof fn law_trusted_certificates_are_not_replaced(
    peers: Seq<PeerView>,
    bundle: crate::identity::pairing::BundleView,
    typed: Seq<char>,
)
    requires
        knows_node(peers, bundle.node),
    ensures
        !(trust_outcome(peers, bundle, typed) matches Ok(Some(_))),
{
}

impl IdentityError {
    /// The error in words.
    pub open spec fn text(self) -> Seq<char> {
        match self {
            IdentityError::UnsupportedCredentialVersion(version) => {
                "identity credential version "@ + crate::text::decimal(version as nat)
                    + " is not supported"@
            },
            IdentityError::NodeMismatch { expected, actual } => {
                "identity credential belongs to `"@ + actual@ + "`, not `"@ + expected@ + "`"@
            },
            IdentityError::InvalidCredentialEncoding => {
                "identity credential contains invalid base64"@
            },
            IdentityError::EmptyCredentialMaterial => {
                "identity credential contains empty key or certificate material"@
            },
        }
    }

    /// The error in words.
    pub fn message(&self) -> (message: String)
        ensures
            message@ == self.text(),
    {
        let mut message = String::new();
        match self {
            IdentityError::UnsupportedCredentialVersion(version) => {
                message.append("identity credential version ");
                push_decimal(&mut message, *version as u64);
                message.append(" is not supported");
            },
            IdentityError::NodeMismatch { expected, actual } => {
                message.append("identity credential belongs to `");
                message.append(actual.as_str());
                message.append("`, not `");
                message.append(expected.as_str());
                message.append("`");
            },
            IdentityError::InvalidCredentialEncoding => {
                message.append("identity credential contains invalid base64");
            },
            IdentityError::EmptyCredentialMaterial => {
                message.append("identity credential contains empty key or certificate material");
            },
        }
        assert(message@ =~= self.text());
        message
    }
}

impl PeerFileError {
    /// The error in words.
    pub open spec fn text(self) -> Seq<char> {
        match self {
            PeerFileError::UnsupportedVersion(version) => {
                "trusted peer version "@ + crate::text::decimal(version as nat)
                    + " is not supported"@
            },
            PeerFileError::InvalidCertificateEncoding => {
                "trusted peer certificate is not valid base64"@
            },
            PeerFileError::EmptyCertificate => "trusted peer certificate is empty"@,
        }
    }

    /// The error in words.
    pub fn message(&self) -> (message: String)
        ensures
            message@ == self.text(),
    {
        let mut message = String::new();
        match self {
            PeerFileError::UnsupportedVersion(version) => {
                message.append("trusted peer version ");
                push_decimal(&mut message, *version as u64);
                message.append(" is not supported");
            },
            PeerFileError::InvalidCertificateEncoding => {
                message.append("trusted peer certificate is not valid base64");
            },
            PeerFileError::EmptyCertificate => message.append("trusted peer certificate is empty"),
        }
        assert(message@ =~= self.text());
        message
    }
}

impl TrustError {
    /// The error in words.
    pub open spec fn text(self) -> Seq<char> {
        match self {
            TrustError::DuplicateNodeFile { index: _ } => {
                "trusted peer file duplicates node identity"@
            },
            TrustError::PairingCodeMismatch => {
                "the pairing code does not match the pairing bundle"@
            },
            TrustError::NodeAlreadyTrusted(node) => {
                "node `"@ + node@ + "` is already trusted with a different certificate"@
            },
            TrustError::CertificateAlreadyTrusted(node) => {
                "the certificate is already trusted for node `"@ + node@ + "`"@
            },
            TrustError::TooManyPeers { maximum } => {
                "the trust store allows at most "@ + crate::text::decimal(maximum as nat)
                    + " peers"@
            },
        }
    }

    /// The error in words.
    pub fn message(&self) -> (message: String)
        ensures
            message@ == self.text(),
    {
        let mut message = String::new();
        match self {
            TrustError::DuplicateNodeFile { index: _ } => {
                message.append("trusted peer file duplicates node identity");
            },
            TrustError::PairingCodeMismatch => {
                message.append("the pairing code does not match the pairing bundle");
            },
            TrustError::NodeAlreadyTrusted(node) => {
                message.append("node `");
                message.append(node.as_str());
                message.append("` is already trusted with a different certificate");
            },
            TrustError::CertificateAlreadyTrusted(node) => {
                message.append("the certificate is already trusted for node `");
                message.append(node.as_str());
                message.append("`");
            },
            TrustError::TooManyPeers { maximum } => {
                message.append("the trust store allows at most ");
                push_decimal(&mut message, *maximum as u64);
                message.append(" peers");
            },
        }
        assert(message@ =~= self.text());
        message
    }
}

} // verus!
