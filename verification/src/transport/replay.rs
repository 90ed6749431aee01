//! Protection against replayed handshakes.

use std::collections::VecDeque;

use vstd::prelude::*;

use crate::digest::same_digest;
use crate::domain::identity::NodeId;

verus! {

pub const DEFAULT_REPLAY_CAPACITY: usize = 1024;

/// Remembers the newest handshakes, so that none of them is accepted twice.
#[derive(Debug)]
pub struct ReplayGuard {
    order: VecDeque<(NodeId, [u8; 32])>,
}

/// A node and the nonce that it said hello with.
pub open spec fn entry_view(entry: (NodeId, [u8; 32])) -> (Seq<char>, Seq<u8>) {
    (entry.0@, entry.1@)
}

impl View for ReplayGuard {
    type V = Seq<(Seq<char>, Seq<u8>)>;

    closed spec fn view(&self) -> Seq<(Seq<char>, Seq<u8>)> {
        self.order@.map_values(|entry: (NodeId, [u8; 32])| entry_view(entry))
    }
}

/// What is remembered after a new handshake: the newest `DEFAULT_REPLAY_CAPACITY`.
pub open spec fn remembered(
    entries: Seq<(Seq<char>, Seq<u8>)>,
    entry: (Seq<char>, Seq<u8>),
) -> Seq<(Seq<char>, Seq<u8>)> {
    let grown = entries.push(entry);
    if grown.len() > DEFAULT_REPLAY_CAPACITY {
        grown.drop_first()
    } else {
        grown
    }
}

impl ReplayGuard {
    pub fn new() -> (guard: ReplayGuard)
        ensures
            guard@ == Seq::<(Seq<char>, Seq<u8>)>::empty(),
    {
        let guard = ReplayGuard { order: VecDeque::new() };
        assert(guard@ =~= Seq::<(Seq<char>, Seq<u8>)>::empty());
        guard
    }

    /// Accepts a handshake unless it is among the newest that were accepted.
    pub fn admits(&mut self, node: NodeId, nonce: [u8; 32]) -> (admitted: bool)
        ensures
            admitted == !old(self)@.contains((node@, nonce@)),
            final(self)@ == if admitted {
                remembered(old(self)@, (node@, nonce@))
            } else {
                old(self)@
            },
    {
        let ghost before = self@;
        let mut index: usize = 0;
        while index < self.order.len()
            invariant
                index <= self.order@.len(),
                before == self@,
                forall|i: int| 0 <= i < index ==> #[trigger] before[i] != (node@, nonce@),
            decreases self.order@.len() - index,
        {
            let entry = &self.order[index];
            assert(before[index as int] == entry_view(*entry));
            if entry.0 == node && same_digest(&entry.1, &nonce) {
                return false;
            }
            index += 1;
        }
        self.order.push_back((node, nonce));
        let ghost pushed = self@;
        assert(pushed =~= before.push((node@, nonce@)));
        if self.order.len() > DEFAULT_REPLAY_CAPACITY {
            let _ = self.order.pop_front();
            assert(self@ =~= pushed.drop_first());
        }
        true
    }
}

/// The guard never remembers more than its capacity.
pub proof fn law_replay_memory_is_bounded(
    entries: Seq<(Seq<char>, Seq<u8>)>,
    entry: (Seq<char>, Seq<u8>),
)
    requires
        entries.len() <= DEFAULT_REPLAY_CAPACITY,
    ensures
        remembered(entries, entry).len() <= DEFAULT_REPLAY_CAPACITY,
{
}

/// What the guard remembers after a series of new handshakes.
pub open spec fn remembered_after(
    entries: Seq<(Seq<char>, Seq<u8>)>,
    accepted: Seq<(Seq<char>, Seq<u8>)>,
) -> Seq<(Seq<char>, Seq<u8>)>
    decreases accepted.len(),
{
    if accepted.len() == 0 {
        entries
    } else {
        remembered(remembered_after(entries, accepted.drop_last()), accepted.last())
    }
}

/// An accepted handshake is still remembered, and so refused, after up to 1023
/// others.
pub proof fn law_recent_handshakes_are_refused(
    entries: Seq<(Seq<char>, Seq<u8>)>,
    entry: (Seq<char>, Seq<u8>),
    accepted: Seq<(Seq<char>, Seq<u8>)>,
)
    requires
        entries.len() <= DEFAULT_REPLAY_CAPACITY,
        accepted.len() < DEFAULT_REPLAY_CAPACITY,
    ensures
        remembered_after(remembered(entries, entry), accepted).contains(entry),
{
    lemma_place_of_entry(remembered(entries, entry), entry, accepted);
}

proof fn lemma_place_of_entry(
    entries: Seq<(Seq<char>, Seq<u8>)>,
    entry: (Seq<char>, Seq<u8>),
    accepted: Seq<(Seq<char>, Seq<u8>)>,
)
    requires
        0 < entries.len() <= DEFAULT_REPLAY_CAPACITY,
        entries.last() == entry,
        accepted.len() < DEFAULT_REPLAY_CAPACITY,
    ensures
        ({
            let after = remembered_after(entries, accepted);
            &&& accepted.len() < after.len() <= DEFAULT_REPLAY_CAPACITY
            &&& after[after.len() - 1 - accepted.len()] == entry
        }),
    decreases accepted.len(),
{
    if accepted.len() > 0 {
        lemma_place_of_entry(entries, entry, accepted.drop_last());
    }
}

} // verus!
