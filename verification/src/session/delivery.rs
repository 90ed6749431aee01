//! What was sent to the peers of a controller, and what they acknowledged.

use vstd::prelude::*;

use crate::domain::identity::NodeId;

verus! {

/// The delivery of one peer. The batches after the last acknowledged one, up
/// to the last sent one, are pending.
#[derive(Debug)]
struct PeerDelivery {
    node: NodeId,
    last_sent: u64,
    last_acknowledged: u64,
}

pub ghost struct DeliveryView {
    pub last_sent: u64,
    pub last_acknowledged: u64,
}

impl DeliveryView {
    /// Nothing was sent.
    pub open spec fn fresh() -> DeliveryView {
        DeliveryView { last_sent: 0, last_acknowledged: 0 }
    }

    /// The number of batches that wait for their acknowledgement.
    pub open spec fn pending(self) -> int {
        self.last_sent - self.last_acknowledged
    }
}

/// The deliveries of all peers, one for each.
#[derive(Debug)]
pub struct Deliveries {
    entries: Vec<PeerDelivery>,
}

spec fn is_entry_of(entries: Seq<PeerDelivery>, node: Seq<char>, index: int) -> bool {
    0 <= index < entries.len() && entries[index].node@ == node
}

spec fn delivery_of(entries: Seq<PeerDelivery>, node: Seq<char>) -> DeliveryView {
    let index = choose|index: int| is_entry_of(entries, node, index);
    DeliveryView {
        last_sent: entries[index].last_sent,
        last_acknowledged: entries[index].last_acknowledged,
    }
}

spec fn has_entry(entries: Seq<PeerDelivery>, node: Seq<char>) -> bool {
    exists|index: int| is_entry_of(entries, node, index)
}

impl View for Deliveries {
    type V = Map<Seq<char>, DeliveryView>;

    closed spec fn view(&self) -> Map<Seq<char>, DeliveryView> {
        Map::new(
            |node: Seq<char>| has_entry(self.entries@, node),
            |node: Seq<char>| delivery_of(self.entries@, node),
        )
    }
}

/// The deliveries of the `remaining` peers: those that are known are kept, the
/// others start afresh.
pub open spec fn carried_deliveries(
    deliveries: Map<Seq<char>, DeliveryView>,
    remaining: Set<Seq<char>>,
) -> Map<Seq<char>, DeliveryView> {
    Map::new(
        |node: Seq<char>| remaining.contains(node),
        |node: Seq<char>|
            if deliveries.dom().contains(node) {
                deliveries[node]
            } else {
                DeliveryView::fresh()
            },
    )
}

impl Deliveries {
    /// Every peer has one entry.
    pub closed spec fn is_valid(self) -> bool {
        forall|i: int, j: int|
            0 <= i < j < self.entries@.len() ==> (#[trigger] self.entries@[i]).node@ != (
            #[trigger] self.entries@[j]).node@
    }

    proof fn lemma_entry(self, node: Seq<char>, index: int)
        requires
            self.is_valid(),
            is_entry_of(self.entries@, node, index),
        ensures
            self@.dom().contains(node),
            self@[node] == (DeliveryView {
                last_sent: self.entries@[index].last_sent,
                last_acknowledged: self.entries@[index].last_acknowledged,
            }),
    {
        let chosen = choose|i: int| is_entry_of(self.entries@, node, i);
        assert(is_entry_of(self.entries@, node, chosen));
        if chosen < index {
            assert(self.entries@[chosen].node@ != self.entries@[index].node@);
        } else if index < chosen {
            assert(self.entries@[index].node@ != self.entries@[chosen].node@);
        }
    }

    /// No deliveries.
    pub fn new() -> (deliveries: Deliveries)
        ensures
            deliveries.is_valid(),
            deliveries@ == Map::<Seq<char>, DeliveryView>::empty(),
    {
        let deliveries = Deliveries { entries: Vec::new() };
        assert(deliveries@ =~= Map::<Seq<char>, DeliveryView>::empty()) by {
            assert forall|node: Seq<char>| !has_entry(deliveries.entries@, node) by {}
        }
        deliveries
    }

    fn index_of(&self, node: &NodeId) -> (index: Option<usize>)
        requires
            self.is_valid(),
        ensures
            match index {
                Some(index) => is_entry_of(self.entries@, node@, index as int)
                    && self@.dom().contains(node@),
                None => !self@.dom().contains(node@),
            },
    {
        let mut index: usize = 0;
        while index < self.entries.len()
            invariant
                self.is_valid(),
                index <= self.entries.len(),
                forall|i: int| 0 <= i < index ==> (#[trigger] self.entries@[i]).node@ != node@,
            decreases self.entries.len() - index,
        {
            if self.entries[index].node == *node {
                assert(is_entry_of(self.entries@, node@, index as int));
                return Some(index);
            }
            index += 1;
        }
        None
    }

    /// What was sent to `node` last, and what it acknowledged last.
    pub fn get(&self, node: &NodeId) -> (delivery: Option<(u64, u64)>)
        requires
            self.is_valid(),
        ensures
            match delivery {
                Some((last_sent, last_acknowledged)) => self@.dom().contains(node@) && self@[node@]
                    == (DeliveryView { last_sent, last_acknowledged }),
                None => !self@.dom().contains(node@),
            },
    {
        match self.index_of(node) {
            Some(index) => {
                proof {
                    self.lemma_entry(node@, index as int);
                }
                Some((self.entries[index].last_sent, self.entries[index].last_acknowledged))
            },
            None => None,
        }
    }

    /// Records what was sent to `node` and what it acknowledged.
    pub fn record(&mut self, node: &NodeId, last_sent: u64, last_acknowledged: u64)
        requires
            old(self).is_valid(),
            old(self)@.dom().contains(node@),
        ensures
            final(self).is_valid(),
            final(self)@ == old(self)@.insert(
                node@,
                DeliveryView { last_sent, last_acknowledged },
            ),
    {
        if let Some(index) = self.index_of(node) {
            let ghost before = *self;
            let entry = PeerDelivery { node: node.clone(), last_sent, last_acknowledged };
            self.entries.set(index, entry);
            proof {
                let after = *self;
                let expected = before@.insert(
                    node@,
                    DeliveryView { last_sent, last_acknowledged },
                );
                assert forall|other: Seq<char>|
                    after@.dom().contains(other) == expected.dom().contains(other) by {
                    if has_entry(after.entries@, other) {
                        let i = choose|i: int| is_entry_of(after.entries@, other, i);
                        assert(is_entry_of(before.entries@, other, i));
                    }
                    if has_entry(before.entries@, other) {
                        let i = choose|i: int| is_entry_of(before.entries@, other, i);
                        assert(is_entry_of(after.entries@, other, i));
                    }
                }
                assert forall|other: Seq<char>| #[trigger]
                    after@.dom().contains(other) implies after@[other] == expected[other] by {
                    let i = choose|i: int| is_entry_of(after.entries@, other, i);
                    after.lemma_entry(other, i);
                    before.lemma_entry(other, i);
                    if other == node@ {
                        after.lemma_entry(other, index as int);
                    }
                }
                assert(after@ =~= expected);
            }
        }
    }

    /// The deliveries of `nodes`, those that are known and fresh ones for the
    /// others.
    pub(crate) fn carried(&self, nodes: &Vec<NodeId>, Ghost(set): Ghost<Set<Seq<char>>>) -> (carried:
        Deliveries)
        requires
            self.is_valid(),
            crate::session::roster::is_sorted_listing(
                crate::session::roster::node_views(nodes@),
                set,
            ),
        ensures
            carried.is_valid(),
            carried@ == carried_deliveries(self@, set),
    {
        let ghost views = crate::session::roster::node_views(nodes@);
        let mut entries: Vec<PeerDelivery> = Vec::new();
        let mut index: usize = 0;
        while index < nodes.len()
            invariant
                self.is_valid(),
                views == crate::session::roster::node_views(nodes@),
                index <= nodes.len(),
                entries@.len() == index,
                forall|i: int|
                    0 <= i < index ==> (#[trigger] entries@[i]).node@ == views[i] && (DeliveryView {
                        last_sent: entries@[i].last_sent,
                        last_acknowledged: entries@[i].last_acknowledged,
                    }) == (if self@.dom().contains(views[i]) {
                        self@[views[i]]
                    } else {
                        DeliveryView::fresh()
                    }),
            decreases nodes.len() - index,
        {
            let node = &nodes[index];
            assert(views[index as int] == node@);
            let (last_sent, last_acknowledged): (u64, u64) = match self.get(node) {
                Some(delivery) => delivery,
                None => (0, 0),
            };
            entries.push(PeerDelivery { node: node.clone(), last_sent, last_acknowledged });
            index += 1;
        }
        let carried = Deliveries { entries };
        proof {
            assert forall|i: int, j: int| 0 <= i < j < entries@.len() implies (
            #[trigger] entries@[i]).node@ != (#[trigger] entries@[j]).node@ by {
                assert(crate::session::roster::precedes(views[i], views[j]));
                crate::session::roster::lemma_listed_once(views, i, j);
            }
            let expected = carried_deliveries(self@, set);
            assert forall|node: Seq<char>|
                carried@.dom().contains(node) == expected.dom().contains(node) by {
                if has_entry(entries@, node) {
                    let i = choose|i: int| is_entry_of(entries@, node, i);
                    assert(views[i] == node);
                    assert(views.contains(node));
                }
                if set.contains(node) {
                    assert(views.contains(node));
                    let i = choose|i: int| 0 <= i < views.len() && views[i] == node;
                    assert(is_entry_of(entries@, node, i));
                }
            }
            assert forall|node: Seq<char>| #[trigger]
                carried@.dom().contains(node) implies carried@[node] == expected[node] by {
                let i = choose|i: int| is_entry_of(entries@, node, i);
                carried.lemma_entry(node, i);
                assert(entries@[i].node@ == views[i]);
                assert(expected.dom().contains(node));
            }
            assert(carried@ =~= expected);
        }
        carried
    }
}

} // verus!
