//! Values of nodes, in the order of the nodes' identifiers.

use vstd::prelude::*;

use crate::domain::identity::NodeId;

verus! {

/// Holds one value for each of some nodes.
#[derive(Debug)]
pub struct NodeMap<T: Copy> {
    entries: Vec<(NodeId, T)>,
}

/// The node has an entry.
pub open spec fn has_entry<T>(entries: Seq<(NodeId, T)>, node: Seq<char>) -> bool {
    exists|i: int| 0 <= i < entries.len() && (#[trigger] entries[i]).0@ == node
}

/// Where the entry of a node stands.
pub open spec fn entry_place<T>(entries: Seq<(NodeId, T)>, node: Seq<char>) -> int {
    choose|i: int| 0 <= i < entries.len() && (#[trigger] entries[i]).0@ == node
}

/// The value in the entry of a node.
pub open spec fn entry_of<T>(entries: Seq<(NodeId, T)>, node: Seq<char>) -> T {
    entries[entry_place(entries, node)].1
}

/// What the entries say.
pub open spec fn meaning<T>(entries: Seq<(NodeId, T)>) -> Map<Seq<char>, T> {
    Map::new(|node: Seq<char>| has_entry(entries, node), |node: Seq<char>| entry_of(entries, node))
}

/// The nodes that have entries.
pub open spec fn entry_names<T>(entries: Seq<(NodeId, T)>) -> Seq<Seq<char>> {
    entries.map_values(|entry: (NodeId, T)| entry.0@)
}

impl<T: Copy> View for NodeMap<T> {
    type V = Map<Seq<char>, T>;

    closed spec fn view(&self) -> Map<Seq<char>, T> {
        meaning(self.entries@)
    }
}

/// The node of an entry has the value of that entry.
proof fn lemma_entry<T>(entries: Seq<(NodeId, T)>, i: int)
    requires
        crate::session::roster::is_sorted(entry_names(entries)),
        0 <= i < entries.len(),
    ensures
        meaning(entries).dom().contains(entries[i].0@),
        meaning(entries)[entries[i].0@] == entries[i].1,
{
    let node = entries[i].0@;
    assert(has_entry(entries, node));
    let j = entry_place(entries, node);
    assert(0 <= j < entries.len() && entries[j].0@ == node);
    assert(entry_names(entries)[i] == node && entry_names(entries)[j] == node);
    crate::session::roster::lemma_precedes_is_irreflexive(node);
    if i < j {
        assert(crate::session::roster::precedes(
            entry_names(entries)[i],
            entry_names(entries)[j],
        ));
    } else if j < i {
        assert(crate::session::roster::precedes(
            entry_names(entries)[j],
            entry_names(entries)[i],
        ));
    }
}

/// Where the entry of a node stands, or where it would go.
fn place_in<T: Copy>(entries: &Vec<(NodeId, T)>, node: &NodeId) -> (place: (usize, bool))
    requires
        crate::session::roster::is_sorted(entry_names(entries@)),
    ensures
        place.0 <= entries@.len(),
        place.1 == has_entry(entries@, node@),
        place.1 ==> place.0 < entries@.len() && entries@[place.0 as int].0@ == node@,
        !place.1 ==> crate::session::roster::is_sorted(
            entry_names(entries@).insert(place.0 as int, node@),
        ),
{
    let ghost names = entry_names(entries@);
    let mut place: usize = 0;
    while place < entries.len() && entries[place].0.precedes(node)
        invariant
            place <= entries@.len(),
            names == entry_names(entries@),
            forall|i: int|
                0 <= i < place ==> crate::session::roster::precedes(#[trigger] names[i], node@),
        decreases entries@.len() - place,
    {
        assert(names[place as int] == entries@[place as int].0@);
        place += 1;
    }
    if place < entries.len() && entries[place].0 == *node {
        assert(entries@[place as int].0@ == node@);
        return (place, true);
    }
    proof {
        if place < entries@.len() {
            assert(names[place as int] == entries@[place as int].0@);
        }
        crate::session::roster::lemma_insertion_keeps_order(names, node@, place as int);
        if has_entry(entries@, node@) {
            let i = choose|i: int| 0 <= i < entries@.len() && (#[trigger] entries@[i]).0@ == node@;
            assert(names[i] == node@);
            assert(names.contains(node@));
        }
    }
    (place, false)
}

impl<T: Copy> NodeMap<T> {
    #[verifier::type_invariant]
    closed spec fn is_in_order(self) -> bool {
        crate::session::roster::is_sorted(entry_names(self.entries@))
    }

    pub fn new() -> (map: NodeMap<T>)
        ensures
            map@ == Map::<Seq<char>, T>::empty(),
    {
        let entries: Vec<(NodeId, T)> = Vec::new();
        assert(meaning(entries@) =~= Map::<Seq<char>, T>::empty());
        NodeMap { entries }
    }

    pub fn is_empty(&self) -> (result: bool)
        ensures
            result == (self@ == Map::<Seq<char>, T>::empty()),
    {
        proof {
            if self.entries@.len() > 0 {
                use_type_invariant(self);
                lemma_entry(self.entries@, 0);
            } else {
                assert(self@ =~= Map::<Seq<char>, T>::empty());
            }
        }
        self.entries.len() == 0
    }

    /// The value of a node.
    pub fn get(&self, node: &NodeId) -> (value: Option<T>)
        ensures
            value == if self@.dom().contains(node@) {
                Some(self@[node@])
            } else {
                None
            },
    {
        proof {
            use_type_invariant(self);
        }
        let (place, found) = place_in(&self.entries, node);
        if found {
            proof {
                lemma_entry(self.entries@, place as int);
            }
            Some(self.entries[place].1)
        } else {
            None
        }
    }

    /// The nodes that have a value, in order.
    pub fn nodes(&self) -> (nodes: Vec<NodeId>)
        ensures
            crate::session::roster::is_sorted_listing(
                crate::session::roster::node_views(nodes@),
                self@.dom(),
            ),
    {
        proof {
            use_type_invariant(self);
        }
        let ghost names = entry_names(self.entries@);
        let mut nodes: Vec<NodeId> = Vec::new();
        let mut index: usize = 0;
        while index < self.entries.len()
            invariant
                index <= self.entries@.len(),
                names == entry_names(self.entries@),
                nodes@.len() == index,
                forall|i: int| 0 <= i < index ==> (#[trigger] nodes@[i])@ == names[i],
            decreases self.entries@.len() - index,
        {
            let node = self.entries[index].0.clone();
            assert(names[index as int] == node@);
            nodes.push(node);
            index += 1;
        }
        proof {
            assert(crate::session::roster::node_views(nodes@) =~= names);
            assert forall|node: Seq<char>| #[trigger] names.contains(node) <==> self@.dom().contains(
                node,
            ) by {
                if names.contains(node) {
                    let i = choose|i: int| 0 <= i < names.len() && names[i] == node;
                    assert(self.entries@[i].0@ == node);
                    assert(has_entry(self.entries@, node));
                }
                if has_entry(self.entries@, node) {
                    let i = choose|i: int|
                        0 <= i < self.entries@.len() && (#[trigger] self.entries@[i]).0@ == node;
                    assert(names[i] == node);
                }
            }
        }
        nodes
    }

    /// The number of nodes that have a value.
    pub fn len(&self) -> (count: usize)
        ensures
            count == crate::session::roster::sorted_listing(self@.dom()).len(),
    {
        let nodes = self.nodes();
        proof {
            crate::session::roster::law_sorted_listing_is_unique(
                crate::session::roster::node_views(nodes@),
                self@.dom(),
            );
        }
        nodes.len()
    }

    /// Gives a node a value.
    pub fn insert(&mut self, node: NodeId, value: T)
        ensures
            final(self)@ == old(self)@.insert(node@, value),
    {
        proof {
            use_type_invariant(&*self);
        }
        let mut entries: Vec<(NodeId, T)> = Vec::new();
        std::mem::swap(&mut self.entries, &mut entries);
        let ghost before = entries@;
        let (place, found) = place_in(&entries, &node);
        if found {
            entries.set(place, (node, value));
            assert(entry_names(entries@) =~= entry_names(before));
        } else {
            entries.insert(place, (node, value));
            assert(entry_names(entries@) =~= entry_names(before).insert(place as int, node@));
        }
        proof {
            assert forall|other: Seq<char>| #[trigger]
                has_entry(entries@, other) == (has_entry(before, other) || other == node@) by {
                lemma_entry_elsewhere(before, entries@, place as int, found, other);
            }
            lemma_entry(entries@, place as int);
            assert forall|other: Seq<char>|
                has_entry(before, other) && other != node@ implies #[trigger] entry_of(
                entries@,
                other,
            ) == entry_of(before, other) by {
                let i = choose|i: int|
                    0 <= i < before.len() && (#[trigger] before[i]).0@ == other;
                let j = if !found && i >= place {
                    i + 1
                } else {
                    i
                };
                assert(entries@[j] == before[i]);
                lemma_entry(entries@, j);
                lemma_entry(before, i);
            }
            assert(meaning(entries@) =~= meaning(before).insert(node@, value));
        }
        self.entries = entries;
    }

    /// Takes the value of a node away.
    pub fn remove(&mut self, node: &NodeId)
        ensures
            final(self)@ == old(self)@.remove(node@),
    {
        proof {
            use_type_invariant(&*self);
        }
        let (place, found) = place_in(&self.entries, node);
        if !found {
            assert(self@ =~= old(self)@.remove(node@));
            return;
        }
        let mut entries: Vec<(NodeId, T)> = Vec::new();
        std::mem::swap(&mut self.entries, &mut entries);
        let ghost before = entries@;
        let _ = entries.remove(place);
        proof {
            assert(entry_names(entries@) =~= entry_names(before).remove(place as int));
            crate::session::roster::lemma_removal_keeps_order(entry_names(before), place as int);
            assert forall|other: Seq<char>| #[trigger]
                has_entry(entries@, other) == (has_entry(before, other) && other != node@) by {
                if has_entry(entries@, other) {
                    let i = choose|i: int|
                        0 <= i < entries@.len() && (#[trigger] entries@[i]).0@ == other;
                    let j = if i >= place {
                        i + 1
                    } else {
                        i
                    };
                    assert(entries@[i] == before[j]);
                    if other == node@ {
                        crate::session::roster::lemma_precedes_is_irreflexive(other);
                        assert(entry_names(before)[j] == entry_names(before)[place as int]);
                        if j < place {
                            assert(crate::session::roster::precedes(
                                entry_names(before)[j],
                                entry_names(before)[place as int],
                            ));
                        } else {
                            assert(crate::session::roster::precedes(
                                entry_names(before)[place as int],
                                entry_names(before)[j],
                            ));
                        }
                    }
                }
                if has_entry(before, other) && other != node@ {
                    let i = choose|i: int|
                        0 <= i < before.len() && (#[trigger] before[i]).0@ == other;
                    let j = if i > place {
                        i - 1
                    } else {
                        i
                    };
                    assert(entries@[j] == before[i]);
                }
            }
            assert forall|other: Seq<char>|
                has_entry(before, other) && other != node@ implies #[trigger] entry_of(
                entries@,
                other,
            ) == entry_of(before, other) by {
                let i = choose|i: int|
                    0 <= i < before.len() && (#[trigger] before[i]).0@ == other;
                let j = if i > place {
                    i - 1
                } else {
                    i
                };
                assert(entries@[j] == before[i]);
                lemma_entry(entries@, j);
                lemma_entry(before, i);
            }
            assert(meaning(entries@) =~= meaning(before).remove(node@));
        }
        self.entries = entries;
    }
}

/// A node has an entry after one entered if it had one before or is that one.
proof fn lemma_entry_elsewhere<T>(
    before: Seq<(NodeId, T)>,
    after: Seq<(NodeId, T)>,
    place: int,
    found: bool,
    other: Seq<char>,
)
    requires
        0 <= place < after.len(),
        found ==> place < before.len() && before[place].0@ == after[place].0@ && after
            == before.update(place, after[place]),
        !found ==> place <= before.len() && after == before.insert(place, after[place]),
    ensures
        has_entry(after, other) == (has_entry(before, other) || other == after[place].0@),
{
    if has_entry(after, other) {
        let i = choose|i: int| 0 <= i < after.len() && (#[trigger] after[i]).0@ == other;
        if i != place {
            let j = if !found && i > place {
                i - 1
            } else {
                i
            };
            assert(before[j] == after[i]);
        }
    }
    if has_entry(before, other) {
        let i = choose|i: int| 0 <= i < before.len() && (#[trigger] before[i]).0@ == other;
        if found && i == place {
            assert(after[place].0@ == other);
        } else {
            let j = if !found && i >= place {
                i + 1
            } else {
                i
            };
            assert(after[j] == before[i]);
        }
    }
    if other == after[place].0@ {
        assert(has_entry(after, other));
    }
}

} // verus!
