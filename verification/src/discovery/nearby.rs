//! The nodes that are announced nearby.

use vstd::prelude::*;
use vstd::string::*;

use crate::digest::same_digest;
use crate::discovery::record::{DiscoveredNode, RecordError};
use crate::domain::identity::NodeId;
use crate::text::same_text;

verus! {

pub const MAX_NEARBY_NODES: usize = 64;

/// The nodes that are announced, in the order of their identifiers.
#[derive(Debug)]
pub struct NearbyNodes {
    entries: Vec<DiscoveredNode>,
}

pub open spec fn entry_views(entries: Seq<DiscoveredNode>) -> Seq<
    crate::discovery::record::NodeView,
> {
    entries.map_values(|entry: DiscoveredNode| entry@)
}

impl View for NearbyNodes {
    type V = Seq<crate::discovery::record::NodeView>;

    closed spec fn view(&self) -> Seq<crate::discovery::record::NodeView> {
        entry_views(self.entries@)
    }
}

/// The identifiers of the nodes.
pub open spec fn names(entries: Seq<crate::discovery::record::NodeView>) -> Seq<Seq<char>> {
    entries.map_values(|entry: crate::discovery::record::NodeView| entry.node)
}

/// Up to 64 nodes in the order of their identifiers, each once.
pub open spec fn is_registry(entries: Seq<crate::discovery::record::NodeView>) -> bool {
    &&& entries.len() <= MAX_NEARBY_NODES
    &&& crate::session::roster::is_sorted(names(entries))
}

/// A node of this identifier is listed at `index`.
pub open spec fn stands_at(
    entries: Seq<crate::discovery::record::NodeView>,
    node: Seq<char>,
    index: int,
) -> bool {
    0 <= index < entries.len() && entries[index].node == node
}

/// A node of this identifier is listed.
pub open spec fn is_listed(
    entries: Seq<crate::discovery::record::NodeView>,
    node: Seq<char>,
) -> bool {
    exists|index: int| stands_at(entries, node, index)
}

/// What an announcement does to the listed nodes.
#[derive(Clone, Copy, Debug, PartialEq, Eq, Structural)]
pub enum RegistryUpdate {
    Added,
    Refreshed,
    Unchanged,
    Full,
    IdentityConflict,
}

/// How an announcement changes the listed nodes. A listed node is replaced, but
/// only by one with the same certificate. A new node is added while there is room.
pub open spec fn is_upsert(
    before: Seq<crate::discovery::record::NodeView>,
    node: crate::discovery::record::NodeView,
    after: Seq<crate::discovery::record::NodeView>,
    update: RegistryUpdate,
) -> bool {
    if is_listed(before, node.node) {
        exists|index: int| #[trigger]
            stands_at(before, node.node, index) && if before[index].fingerprint()
                != node.fingerprint() {
                after == before && update == RegistryUpdate::IdentityConflict
            } else {
                &&& after == before.update(index, node)
                &&& update == if before[index] == node {
                    RegistryUpdate::Unchanged
                } else {
                    RegistryUpdate::Refreshed
                }
            }
    } else if before.len() >= MAX_NEARBY_NODES {
        after == before && update == RegistryUpdate::Full
    } else {
        &&& update == RegistryUpdate::Added
        &&& exists|index: int|
            0 <= index <= before.len() && after == #[trigger] before.insert(index, node)
    }
}

/// The first listed node with this service name stands at `index`.
pub open spec fn is_first_named(
    entries: Seq<crate::discovery::record::NodeView>,
    fullname: Seq<char>,
    index: int,
) -> bool {
    &&& 0 <= index < entries.len()
    &&& entries[index].fullname == fullname
    &&& forall|i: int| 0 <= i < index ==> (#[trigger] entries[i]).fullname != fullname
}

/// How the departure of a service changes the listed nodes.
pub open spec fn is_departure(
    before: Seq<crate::discovery::record::NodeView>,
    fullname: Seq<char>,
    after: Seq<crate::discovery::record::NodeView>,
    departed: Option<Seq<char>>,
) -> bool {
    match departed {
        Some(node) => exists|index: int| #[trigger]
            is_first_named(before, fullname, index) && node == before[index].node && after
                == before.remove(index),
        None => after == before && forall|i: int|
            0 <= i < before.len() ==> (#[trigger] before[i]).fullname != fullname,
    }
}

impl NearbyNodes {
    #[verifier::type_invariant]
    pub open spec fn is_valid(self) -> bool {
        is_registry(self@)
    }

    pub fn new() -> (nodes: NearbyNodes)
        ensures
            nodes@ == Seq::<crate::discovery::record::NodeView>::empty(),
    {
        let entries: Vec<DiscoveredNode> = Vec::new();
        assert(entry_views(entries@) =~= Seq::<crate::discovery::record::NodeView>::empty());
        NearbyNodes { entries }
    }

    pub fn len(&self) -> (count: usize)
        ensures
            count == self@.len(),
            count <= MAX_NEARBY_NODES,
    {
        proof {
            use_type_invariant(self);
        }
        self.entries.len()
    }

    pub fn is_empty(&self) -> (result: bool)
        ensures
            result == (self@.len() == 0),
    {
        self.entries.len() == 0
    }

    /// The listed nodes in the order of their identifiers.
    pub fn iter(&self) -> (entries: &[DiscoveredNode])
        ensures
            entry_views(entries@) == self@,
            is_registry(self@),
    {
        proof {
            use_type_invariant(self);
        }
        self.entries.as_slice()
    }

    /// Takes an announcement into account.
    pub fn upsert(&mut self, node: DiscoveredNode) -> (update: RegistryUpdate)
        ensures
            is_upsert(old(self)@, node@, final(self)@, update),
            is_registry(final(self)@),
    {
        proof {
            use_type_invariant(&*self);
        }
        let ghost before = self@;
        let mut place: usize = 0;
        while place < self.entries.len() && self.entries[place].node().precedes(node.node())
            invariant
                place <= self.entries@.len(),
                before == self@,
                forall|i: int|
                    0 <= i < place ==> crate::session::roster::precedes(
                        (#[trigger] before[i]).node,
                        node@.node,
                    ),
            decreases self.entries@.len() - place,
        {
            assert(before[place as int] == self.entries@[place as int]@);
            place += 1;
        }
        if place < self.entries.len() && *self.entries[place].node() == *node.node() {
            assert(before[place as int] == self.entries@[place as int]@);
            assert(stands_at(before, node@.node, place as int));
            if !same_digest(&self.entries[place].fingerprint(), &node.fingerprint()) {
                return RegistryUpdate::IdentityConflict;
            }
            let changed = self.entries[place] != node;
            let ghost replaced = before.update(place as int, node@);
            let mut entries = self.copied_entries();
            entries.set(place, node);
            proof {
                assert(entry_views(entries@) =~= replaced);
                assert(names(replaced) =~= names(before));
            }
            self.entries = entries;
            return if changed {
                RegistryUpdate::Refreshed
            } else {
                RegistryUpdate::Unchanged
            };
        }
        proof {
            lemma_not_listed(before, node@.node, place as int);
        }
        if self.entries.len() >= MAX_NEARBY_NODES {
            return RegistryUpdate::Full;
        }
        let ghost added = before.insert(place as int, node@);
        let mut entries = self.copied_entries();
        entries.insert(place, node);
        proof {
            assert(entry_views(entries@) =~= added);
            lemma_insertion_keeps_order(before, node@, place as int);
        }
        self.entries = entries;
        RegistryUpdate::Added
    }

    /// Forgets the node of a service that departed.
    pub fn remove_fullname(&mut self, fullname: &str) -> (departed: Option<NodeId>)
        ensures
            is_departure(
                old(self)@,
                fullname@,
                final(self)@,
                match departed {
                    Some(node) => Some(node@),
                    None => None,
                },
            ),
            is_registry(final(self)@),
    {
        proof {
            use_type_invariant(&*self);
        }
        let ghost before = self@;
        let mut index: usize = 0;
        while index < self.entries.len() && !same_text(self.entries[index].fullname(), fullname)
            invariant
                index <= self.entries@.len(),
                before == self@,
                forall|i: int|
                    0 <= i < index ==> (#[trigger] before[i]).fullname != fullname@,
            decreases self.entries@.len() - index,
        {
            assert(before[index as int] == self.entries@[index as int]@);
            index += 1;
        }
        if index >= self.entries.len() {
            return None;
        }
        assert(before[index as int] == self.entries@[index as int]@);
        assert(is_first_named(before, fullname@, index as int));
        let node = self.entries[index].node().clone();
        let ghost reduced = before.remove(index as int);
        let mut entries = self.copied_entries();
        let _ = entries.remove(index);
        proof {
            assert(entry_views(entries@) =~= reduced);
            let after = names(reduced);
            assert forall|i: int, j: int| 0 <= i < j < after.len() implies
                crate::session::roster::precedes(#[trigger] after[i], #[trigger] after[j]) by {
                let a = if i < index {
                    i
                } else {
                    i + 1
                };
                let b = if j < index {
                    j
                } else {
                    j + 1
                };
                assert(after[i] == names(before)[a] && after[j] == names(before)[b]);
            }
        }
        self.entries = entries;
        Some(node)
    }

    fn copied_entries(&self) -> (entries: Vec<DiscoveredNode>)
        ensures
            entry_views(entries@) == self@,
            entries@.len() == self.entries@.len(),
    {
        let mut entries: Vec<DiscoveredNode> = Vec::new();
        let mut index: usize = 0;
        assert(entry_views(entries@) =~= self@.take(0));
        while index < self.entries.len()
            invariant
                index <= self.entries@.len(),
                entries@.len() == index,
                entry_views(entries@) == self@.take(index as int),
            decreases self.entries@.len() - index,
        {
            let ghost before = entry_views(entries@);
            entries.push(self.entries[index].clone());
            proof {
                assert(self@[index as int] == self.entries@[index as int]@);
                assert(entry_views(entries@) =~= before.push(self@[index as int]));
                assert(self@.take(index + 1) =~= before.push(self@[index as int]));
            }
            index += 1;
        }
        assert(self@.take(index as int) =~= self@);
        entries
    }
}

impl Default for NearbyNodes {
    fn default() -> (nodes: NearbyNodes)
        ensures
            nodes@ == Seq::<crate::discovery::record::NodeView>::empty(),
    {
        NearbyNodes::new()
    }
}

proof fn lemma_follows(
    entries: Seq<crate::discovery::record::NodeView>,
    node: Seq<char>,
    place: int,
)
    requires
        is_registry(entries),
        0 <= place <= entries.len(),
        place < entries.len() ==> entries[place].node != node && !crate::session::roster::precedes(
            entries[place].node,
            node,
        ),
    ensures
        forall|i: int|
            place <= i < entries.len() ==> crate::session::roster::precedes(
                node,
                (#[trigger] entries[i]).node,
            ),
{
    assert forall|i: int| place <= i < entries.len() implies crate::session::roster::precedes(
        node,
        (#[trigger] entries[i]).node,
    ) by {
        crate::session::roster::lemma_precedes_is_total(entries[place].node, node);
        if i > place {
            assert(crate::session::roster::precedes(names(entries)[place], names(entries)[i]));
            crate::session::roster::lemma_precedes_is_transitive(
                node,
                entries[place].node,
                entries[i].node,
            );
        }
    }
}

proof fn lemma_not_listed(
    entries: Seq<crate::discovery::record::NodeView>,
    node: Seq<char>,
    place: int,
)
    requires
        is_registry(entries),
        0 <= place <= entries.len(),
        forall|i: int|
            0 <= i < place ==> crate::session::roster::precedes(
                (#[trigger] entries[i]).node,
                node,
            ),
        place < entries.len() ==> entries[place].node != node && !crate::session::roster::precedes(
            entries[place].node,
            node,
        ),
    ensures
        !is_listed(entries, node),
{
    lemma_follows(entries, node, place);
    assert forall|i: int| !stands_at(entries, node, i) by {
        crate::session::roster::lemma_precedes_is_irreflexive(node);
        if 0 <= i < place {
            assert(crate::session::roster::precedes(entries[i].node, node));
        } else if place <= i < entries.len() {
            assert(crate::session::roster::precedes(node, entries[i].node));
        }
    }
}

proof fn lemma_insertion_keeps_order(
    entries: Seq<crate::discovery::record::NodeView>,
    node: crate::discovery::record::NodeView,
    place: int,
)
    requires
        is_registry(entries),
        0 <= place <= entries.len(),
        forall|i: int|
            0 <= i < place ==> crate::session::roster::precedes(
                (#[trigger] entries[i]).node,
                node.node,
            ),
        place < entries.len() ==> entries[place].node != node.node
            && !crate::session::roster::precedes(entries[place].node, node.node),
    ensures
        crate::session::roster::is_sorted(names(entries.insert(place, node))),
{
    lemma_follows(entries, node.node, place);
    let longer = entries.insert(place, node);
    assert forall|i: int, j: int| 0 <= i < j < longer.len() implies
        crate::session::roster::precedes(
        #[trigger] names(longer)[i],
        #[trigger] names(longer)[j],
    ) by {
        let a = if i > place {
            i - 1
        } else {
            i
        };
        let b = if j > place {
            j - 1
        } else {
            j
        };
        if i == place {
            assert(longer[j] == entries[b]);
        } else if j == place {
            assert(longer[i] == entries[a]);
        } else {
            assert(names(longer)[i] == names(entries)[a]);
            assert(names(longer)[j] == names(entries)[b]);
        }
    }
}

/// What one round of events from the network came to.
#[derive(Debug, PartialEq, Eq)]
pub struct DiscoveryPoll {
    pub changed: bool,
    pub error: Option<String>,
}

pub ghost struct PollView {
    pub changed: bool,
    pub error: Option<Seq<char>>,
}

impl View for DiscoveryPoll {
    type V = PollView;

    open spec fn view(&self) -> PollView {
        PollView {
            changed: self.changed,
            error: match self.error {
                Some(text) => Some(text@),
                None => None,
            },
        }
    }
}

impl Default for DiscoveryPoll {
    fn default() -> (poll: DiscoveryPoll)
        ensures
            poll@ == (PollView { changed: false, error: None }),
    {
        DiscoveryPoll { changed: false, error: None }
    }
}

/// What a round has come to after an announcement that had this effect.
pub open spec fn poll_after(poll: PollView, node: Seq<char>, update: RegistryUpdate) -> PollView {
    match update {
        RegistryUpdate::Added | RegistryUpdate::Refreshed => PollView { changed: true, ..poll },
        RegistryUpdate::Unchanged => poll,
        RegistryUpdate::Full => PollView {
            error: Some("Nearby node limit reached (64)"@),
            ..poll
        },
        RegistryUpdate::IdentityConflict => PollView {
            error: Some("Conflicting identity advertised for "@ + node),
            ..poll
        },
    }
}

impl DiscoveryPoll {
    /// Takes a resolved service into account: `node` is what its record was read
    /// as. The own service and the own node are passed over, and so is a record
    /// that is refused.
    pub fn resolved(
        &mut self,
        nearby: &mut NearbyNodes,
        local: &NodeId,
        own_fullname: &str,
        fullname: &str,
        node: Result<DiscoveredNode, RecordError>,
    )
        ensures
            if fullname@ != own_fullname@ && (node matches Ok(found) && found@.node != local@) {
                exists|update: RegistryUpdate| #[trigger]
                    is_upsert(old(nearby)@, node->Ok_0@, final(nearby)@, update) && final(self)@
                        == poll_after(old(self)@, node->Ok_0@.node, update)
            } else {
                final(self)@ == old(self)@ && final(nearby)@ == old(nearby)@
            },
    {
        if same_text(fullname, own_fullname) {
            return;
        }
        let node = match node {
            Ok(node) => node,
            Err(_) => {
                return;
            },
        };
        if *node.node() == *local {
            return;
        }
        let name = node.node().clone();
        match nearby.upsert(node) {
            RegistryUpdate::Added | RegistryUpdate::Refreshed => {
                self.changed = true;
            },
            RegistryUpdate::Unchanged => {},
            RegistryUpdate::Full => {
                self.error = Some("Nearby node limit reached (64)".to_owned());
            },
            RegistryUpdate::IdentityConflict => {
                let mut text = "Conflicting identity advertised for ".to_owned();
                text.append(name.as_str());
                self.error = Some(text);
            },
        }
    }

    /// Takes the departure of a service into account. Returns the node that
    /// departed.
    pub fn removed(&mut self, nearby: &mut NearbyNodes, fullname: &str) -> (departed: Option<
        NodeId,
    >)
        ensures
            is_departure(
                old(nearby)@,
                fullname@,
                final(nearby)@,
                match departed {
                    Some(node) => Some(node@),
                    None => None,
                },
            ),
            final(self)@ == (PollView {
                changed: old(self)@.changed || departed is Some,
                ..old(self)@
            }),
    {
        let departed = nearby.remove_fullname(fullname);
        if departed.is_some() {
            self.changed = true;
        }
        departed
    }

    /// Takes an error of the network into account.
    pub fn failed(&mut self, error: String)
        ensures
            final(self)@ == (PollView { error: Some(error@), ..old(self)@ }),
    {
        self.error = Some(error);
    }
}

/// An announcement with another certificate does not change the listed nodes.
pub proof fn law_identities_are_not_taken_over(
    before: Seq<crate::discovery::record::NodeView>,
    node: crate::discovery::record::NodeView,
    after: Seq<crate::discovery::record::NodeView>,
    update: RegistryUpdate,
    index: int,
)
    requires
        is_registry(before),
        is_upsert(before, node, after, update),
        stands_at(before, node.node, index),
        before[index].fingerprint() != node.fingerprint(),
    ensures
        after == before,
        update == RegistryUpdate::IdentityConflict,
{
    let other = choose|other: int| #[trigger]
        stands_at(before, node.node, other) && if before[other].fingerprint()
            != node.fingerprint() {
            after == before && update == RegistryUpdate::IdentityConflict
        } else {
            &&& after == before.update(other, node)
            &&& update == if before[other] == node {
                RegistryUpdate::Unchanged
            } else {
                RegistryUpdate::Refreshed
            }
        };
    crate::session::roster::lemma_precedes_is_irreflexive(node.node);
    if index < other {
        assert(crate::session::roster::precedes(names(before)[index], names(before)[other]));
    } else if other < index {
        assert(crate::session::roster::precedes(names(before)[other], names(before)[index]));
    }
}

} // verus!
