//! The peers that are connected to a controller.

use vstd::prelude::*;

use crate::domain::identity::NodeId;
use crate::session::clipboard::ClipboardSession;

verus! {

/// A connected peer.
#[derive(Debug)]
pub struct ActivePeer {
    pub node: NodeId,
    pub session_id: u128,
    pub clipboard: Option<ClipboardSession>,
}

pub ghost struct PeerView {
    pub node: Seq<char>,
    pub session_id: u128,
    pub clipboard: Option<crate::session::clipboard::ClipboardView>,
}

impl View for ActivePeer {
    type V = PeerView;

    open spec fn view(&self) -> PeerView {
        PeerView {
            node: self.node@,
            session_id: self.session_id,
            clipboard: match self.clipboard {
                Some(session) => Some(session@),
                None => None,
            },
        }
    }
}

pub open spec fn peer_views(peers: Seq<ActivePeer>) -> Seq<PeerView> {
    peers.map_values(|peer: ActivePeer| peer@)
}

/// The identifiers of the peers.
pub open spec fn names(peers: Seq<PeerView>) -> Seq<Seq<char>> {
    peers.map_values(|peer: PeerView| peer.node)
}

/// Where the peer of a node stands, from `from` on.
pub open spec fn place_from(peers: Seq<PeerView>, node: Seq<char>, from: int) -> Option<int>
    decreases peers.len() - from,
{
    if from < 0 || from >= peers.len() {
        None
    } else if peers[from].node == node {
        Some(from)
    } else {
        place_from(peers, node, from + 1)
    }
}

/// Where the peer of a node stands.
pub open spec fn place_of(peers: Seq<PeerView>, node: Seq<char>) -> Option<int> {
    place_from(peers, node, 0)
}

/// The node is connected.
pub open spec fn is_connected(peers: Seq<PeerView>, node: Seq<char>) -> bool {
    place_of(peers, node) is Some
}

/// The node is connected in this session.
pub open spec fn is_active(peers: Seq<PeerView>, node: Seq<char>, session_id: u128) -> bool {
    match place_of(peers, node) {
        Some(place) => peers[place].session_id == session_id,
        None => false,
    }
}

/// Where a new peer goes, from `from` on: before the first that it precedes.
pub open spec fn rank_from(peers: Seq<PeerView>, node: Seq<char>, from: int) -> int
    decreases peers.len() - from,
{
    if from < 0 || from >= peers.len() || !crate::session::roster::precedes(
        peers[from].node,
        node,
    ) {
        from
    } else {
        rank_from(peers, node, from + 1)
    }
}

/// The peers together with a new one, or with a new connection of one.
pub open spec fn joined(peers: Seq<PeerView>, peer: PeerView) -> Seq<PeerView> {
    match place_of(peers, peer.node) {
        Some(place) => peers.update(place, peer),
        None => peers.insert(rank_from(peers, peer.node, 0), peer),
    }
}

pub proof fn lemma_place_from(peers: Seq<PeerView>, node: Seq<char>, from: int)
    requires
        0 <= from <= peers.len(),
    ensures
        match place_from(peers, node, from) {
            Some(place) => from <= place < peers.len() && peers[place].node == node,
            None => forall|i: int| from <= i < peers.len() ==> (#[trigger] peers[i]).node != node,
        },
    decreases peers.len() - from,
{
    if from < peers.len() && peers[from].node != node {
        lemma_place_from(peers, node, from + 1);
    }
}

/// Where the peer of a node stands.
pub(crate) fn find_peer(peers: &Vec<ActivePeer>, node: &NodeId) -> (place: Option<usize>)
    ensures
        match place {
            Some(place) => place < peers@.len() && place_of(peer_views(peers@), node@) == Some(
                place as int,
            ) && peers@[place as int].node@ == node@,
            None => place_of(peer_views(peers@), node@) is None,
        },
{
    let ghost views = peer_views(peers@);
    let mut index: usize = 0;
    while index < peers.len()
        invariant
            index <= peers@.len(),
            views == peer_views(peers@),
            place_of(views, node@) == place_from(views, node@, index as int),
        decreases peers@.len() - index,
    {
        assert(views[index as int] == peers@[index as int]@);
        if peers[index].node == *node {
            return Some(index);
        }
        index += 1;
    }
    None
}

/// Adds a peer, or replaces its connection.
pub(crate) fn join(peers: &mut Vec<ActivePeer>, peer: ActivePeer)
    requires
        crate::session::roster::is_sorted(names(peer_views(old(peers)@))),
    ensures
        peer_views(final(peers)@) == joined(peer_views(old(peers)@), peer@),
        crate::session::roster::is_sorted(names(peer_views(final(peers)@))),
{
    let ghost before = peer_views(peers@);
    proof {
        lemma_place_from(before, peer@.node, 0);
    }
    if let Some(place) = find_peer(peers, &peer.node) {
        peers.set(place, peer);
        proof {
            assert(peer_views(peers@) =~= before.update(place as int, peer@));
            assert(names(peer_views(peers@)) =~= names(before));
        }
        return;
    }
    let mut place: usize = 0;
    while place < peers.len() && peers[place].node.precedes(&peer.node)
        invariant
            place <= peers@.len(),
            before == peer_views(peers@),
            rank_from(before, peer@.node, 0) == rank_from(before, peer@.node, place as int),
            forall|i: int|
                0 <= i < place ==> crate::session::roster::precedes(
                    #[trigger] names(before)[i],
                    peer@.node,
                ),
        decreases peers@.len() - place,
    {
        assert(before[place as int] == peers@[place as int]@);
        place += 1;
    }
    proof {
        if place < peers@.len() {
            assert(before[place as int] == peers@[place as int]@);
            assert(names(before)[place as int] == before[place as int].node);
        }
        crate::session::roster::lemma_insertion_keeps_order(
            names(before),
            peer@.node,
            place as int,
        );
    }
    peers.insert(place, peer);
    proof {
        assert(peer_views(peers@) =~= before.insert(place as int, peer@));
        assert(names(peer_views(peers@)) =~= names(before).insert(place as int, peer@.node));
    }
}

/// Removes the peer at `place`.
pub(crate) fn leave(peers: &mut Vec<ActivePeer>, place: usize) -> (peer: ActivePeer)
    requires
        place < old(peers)@.len(),
        crate::session::roster::is_sorted(names(peer_views(old(peers)@))),
    ensures
        peer@ == peer_views(old(peers)@)[place as int],
        peer.node == old(peers)@[place as int].node,
        peer_views(final(peers)@) == peer_views(old(peers)@).remove(place as int),
        crate::session::roster::is_sorted(names(peer_views(final(peers)@))),
{
    let ghost before = peer_views(peers@);
    proof {
        crate::session::roster::lemma_removal_keeps_order(names(before), place as int);
    }
    let peer = peers.remove(place);
    proof {
        assert(peer_views(peers@) =~= before.remove(place as int));
        assert(names(peer_views(peers@)) =~= names(before).remove(place as int));
    }
    peer
}

/// Puts the peer at `place` back with a changed clipboard session.
pub(crate) fn set_clipboard(
    peers: &mut Vec<ActivePeer>,
    place: usize,
    clipboard: Option<ClipboardSession>,
)
    requires
        place < old(peers)@.len(),
        crate::session::roster::is_sorted(names(peer_views(old(peers)@))),
    ensures
        peer_views(final(peers)@) == peer_views(old(peers)@).update(
            place as int,
            PeerView {
                clipboard: match clipboard {
                    Some(session) => Some(session@),
                    None => None,
                },
                ..peer_views(old(peers)@)[place as int]
            },
        ),
        crate::session::roster::is_sorted(names(peer_views(final(peers)@))),
{
    let ghost before = peer_views(peers@);
    let node = peers[place].node.clone();
    let session_id: u128 = peers[place].session_id;
    peers.set(place, ActivePeer { node, session_id, clipboard });
    proof {
        assert(peer_views(peers@) =~= before.update(place as int, peers@[place as int]@));
        assert(names(peer_views(peers@)) =~= names(before));
    }
}

/// Takes the clipboard session of the peer at `place` out.
pub(crate) fn take_clipboard(peers: &mut Vec<ActivePeer>, place: usize) -> (clipboard: Option<
    ClipboardSession,
>)
    requires
        place < old(peers)@.len(),
        crate::session::roster::is_sorted(names(peer_views(old(peers)@))),
    ensures
        peer_views(old(peers)@)[place as int].clipboard == match clipboard {
            Some(session) => Some(session@),
            None => None,
        },
        peer_views(final(peers)@) == peer_views(old(peers)@).update(
            place as int,
            PeerView { clipboard: None, ..peer_views(old(peers)@)[place as int] },
        ),
        crate::session::roster::is_sorted(names(peer_views(final(peers)@))),
{
    let ghost before = peer_views(peers@);
    let mut peer = peers.remove(place);
    assert(before[place as int] == peer@);
    let clipboard = peer.clipboard;
    peer.clipboard = None;
    peers.insert(place, peer);
    proof {
        assert(peer_views(peers@) =~= before.update(place as int, peer@));
        assert(names(peer_views(peers@)) =~= names(before));
    }
    clipboard
}

} // verus!
