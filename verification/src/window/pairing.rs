//! What the pairing page shows.

use vstd::prelude::*;
use vstd::string::*;

use crate::discovery::nearby::NearbyNodes;
use crate::domain::identity::NodeId;
use crate::identity::store::TrustStore;
use crate::window::labels::format_fingerprint;

verus! {

/// A node that is shown: by its name, and the beginning of the fingerprint of
/// its certificate.
#[derive(Debug)]
pub struct NodeRow {
    pub node: NodeId,
    pub fingerprint: String,
    /// Whether the node is trusted already.
    pub paired: bool,
}

pub ghost struct NodeRowView {
    pub node: Seq<char>,
    pub fingerprint: Seq<char>,
    pub paired: bool,
}

impl View for NodeRow {
    type V = NodeRowView;

    open spec fn view(&self) -> NodeRowView {
        NodeRowView { node: self.node@, fingerprint: self.fingerprint@, paired: self.paired }
    }
}

pub open spec fn row_views(rows: Seq<NodeRow>) -> Seq<NodeRowView> {
    rows.map_values(|row: NodeRow| row@)
}

/// How much of a fingerprint is shown.
pub open spec fn shown_fingerprint(fingerprint: Seq<u8>) -> Seq<char> {
    crate::encoding::hex_groups(
        fingerprint.take(crate::window::labels::SHOWN_FINGERPRINT_BYTES as int),
    )
}

/// The row of a node nearby.
pub open spec fn nearby_row(
    found: crate::discovery::record::NodeView,
    trusted: Seq<crate::identity::store::PeerView>,
) -> NodeRowView {
    NodeRowView {
        node: found.node,
        fingerprint: shown_fingerprint(found.fingerprint()),
        paired: crate::identity::store::knows_node(trusted, found.node),
    }
}

/// The row of a trusted node.
pub open spec fn trusted_row(peer: crate::identity::store::PeerView) -> NodeRowView {
    NodeRowView {
        node: peer.node,
        fingerprint: shown_fingerprint(peer.fingerprint()),
        paired: true,
    }
}

/// The nodes nearby, and whether they are trusted already.
pub fn nearby_rows(nearby: &NearbyNodes, trust: &TrustStore) -> (rows: Vec<NodeRow>)
    ensures
        row_views(rows@) == nearby@.map_values(
            |found: crate::discovery::record::NodeView| nearby_row(found, trust@),
        ),
{
    let entries = nearby.iter();
    let mut rows: Vec<NodeRow> = Vec::new();
    let mut index: usize = 0;
    while index < entries.len()
        invariant
            index <= entries@.len(),
            crate::discovery::nearby::entry_views(entries@) == nearby@,
            rows@.len() == index,
            forall|i: int|
                0 <= i < index ==> (#[trigger] rows@[i])@ == nearby_row(nearby@[i], trust@),
        decreases entries@.len() - index,
    {
        let found = &entries[index];
        assert(nearby@[index as int] == found@);
        let peer = trust.get(found.node());
        let paired = peer.is_some();
        proof {
            if let Some(peer) = peer {
                let i = choose|i: int| 0 <= i < trust@.len() && trust@[i] == peer@;
                assert(trust@[i].node == found@.node);
            }
        }
        rows.push(
            NodeRow {
                node: found.node().clone(),
                fingerprint: format_fingerprint(&found.fingerprint()),
                paired,
            },
        );
        index += 1;
    }
    assert(row_views(rows@) =~= nearby@.map_values(
        |found: crate::discovery::record::NodeView| nearby_row(found, trust@),
    ));
    rows
}

/// The trusted nodes.
pub fn trusted_rows(trust: &TrustStore) -> (rows: Vec<NodeRow>)
    ensures
        row_views(rows@) == trust@.map_values(
            |peer: crate::identity::store::PeerView| trusted_row(peer),
        ),
{
    let peers = trust.peers();
    let mut rows: Vec<NodeRow> = Vec::new();
    let mut index: usize = 0;
    while index < peers.len()
        invariant
            index <= peers@.len(),
            crate::identity::store::peer_views(peers@) == trust@,
            rows@.len() == index,
            forall|i: int| 0 <= i < index ==> (#[trigger] rows@[i])@ == trusted_row(trust@[i]),
        decreases peers@.len() - index,
    {
        let peer = &peers[index];
        assert(trust@[index as int] == peer@);
        rows.push(
            NodeRow {
                node: peer.node().clone(),
                fingerprint: format_fingerprint(&peer.fingerprint()),
                paired: true,
            },
        );
        index += 1;
    }
    assert(row_views(rows@) =~= trust@.map_values(
        |peer: crate::identity::store::PeerView| trusted_row(peer),
    ));
    rows
}

/// What is shown where no node is nearby.
pub fn empty_nearby_text(discovering: bool) -> (text: &'static str)
    ensures
        text@ == if discovering {
            "Searching the local network"@
        } else {
            "Local network discovery unavailable"@
        },
{
    if discovering {
        "Searching the local network"
    } else {
        "Local network discovery unavailable"
    }
}

} // verus!
