//! Remote texts on their way into the native clipboard.

use std::collections::VecDeque;

use vstd::prelude::*;
use vstd::string::*;

use crate::domain::identity::NodeId;
use crate::protocol::clipboard::{ClipboardGeneration, ClipboardText};
use crate::runtime::event::RuntimeError;

verus! {

/// The remote texts that wait for the native clipboard, and the one that it is
/// taking.
#[derive(Debug)]
pub struct ClipboardApplications {
    pending: Option<(NodeId, ClipboardGeneration)>,
    queued: VecDeque<(NodeId, ClipboardText)>,
}

#[verifier::ext_equal]
pub ghost struct ApplicationsView {
    pub pending: Option<(Seq<char>, crate::protocol::clipboard::GenerationView)>,
    pub queued: Seq<(Seq<char>, crate::protocol::clipboard::TextView)>,
}

pub open spec fn queue_views(queued: Seq<(NodeId, ClipboardText)>) -> Seq<
    (Seq<char>, crate::protocol::clipboard::TextView),
> {
    queued.map_values(|entry: (NodeId, ClipboardText)| (entry.0@, entry.1@))
}

impl View for ClipboardApplications {
    type V = ApplicationsView;

    closed spec fn view(&self) -> ApplicationsView {
        ApplicationsView {
            pending: match self.pending {
                Some((peer, generation)) => Some((peer@, generation@)),
                None => None,
            },
            queued: queue_views(self.queued@),
        }
    }
}

impl ApplicationsView {
    /// Nothing waits.
    pub open spec fn none() -> ApplicationsView {
        ApplicationsView { pending: None, queued: Seq::empty() }
    }

    /// Another text waits.
    pub open spec fn with(
        self,
        peer: Seq<char>,
        transfer: crate::protocol::clipboard::TextView,
    ) -> ApplicationsView {
        ApplicationsView { queued: self.queued.push((peer, transfer)), ..self }
    }

    /// The next text can be handed to the native clipboard.
    pub open spec fn is_waiting(self) -> bool {
        self.pending is None && self.queued.len() > 0
    }

    /// The next text was handed to the native clipboard.
    pub open spec fn started(self) -> ApplicationsView {
        if self.is_waiting() {
            ApplicationsView {
                pending: Some((self.queued[0].0, self.queued[0].1.generation)),
                queued: self.queued.drop_first(),
            }
        } else {
            self
        }
    }

    /// No text of this peer waits.
    pub open spec fn without(self, peer: Seq<char>) -> ApplicationsView {
        ApplicationsView {
            queued: self.queued.filter(
                |entry: (Seq<char>, crate::protocol::clipboard::TextView)| entry.0 != peer,
            ),
            ..self
        }
    }
}

impl ClipboardApplications {
    pub fn new() -> (applications: ClipboardApplications)
        ensures
            applications@ == ApplicationsView::none(),
    {
        let applications = ClipboardApplications { pending: None, queued: VecDeque::new() };
        assert(applications@ =~= ApplicationsView::none());
        applications
    }

    /// Lets a text of a peer wait.
    pub fn enqueue(&mut self, peer: NodeId, transfer: ClipboardText)
        ensures
            final(self)@ == old(self)@.with(peer@, transfer@),
    {
        let ghost before = self@.queued;
        self.queued.push_back((peer, transfer));
        assert(self@.queued =~= before.push((peer@, transfer@)));
    }

    /// The text to hand to the native clipboard, where it is the turn of the
    /// next one. Fails where there is no native clipboard.
    pub fn start_next(&mut self, available: bool) -> (result: Result<Option<String>, RuntimeError>)
        ensures
            match result {
                Ok(Some(text)) => old(self)@.is_waiting() && available && text@ == old(
                    self,
                )@.queued[0].1.text && final(self)@ == old(self)@.started(),
                Ok(None) => !old(self)@.is_waiting() && final(self)@ == old(self)@,
                Err(error) => old(self)@.is_waiting() && !available && error@
                    == crate::runtime::event::RuntimeFault::Native(
                    "native clipboard service is unavailable"@,
                ),
            },
    {
        if self.pending.is_some() {
            return Ok(None);
        }
        let ghost before = self@.queued;
        let entry = self.queued.pop_front();
        let (peer, transfer) = match entry {
            Some(entry) => entry,
            None => {
                assert(self@.queued =~= before);
                return Ok(None);
            },
        };
        assert(before[0] == (peer@, transfer@));
        assert(self@.queued =~= before.drop_first());
        if !available {
            return Err(
                RuntimeError::Native("native clipboard service is unavailable".to_owned()),
            );
        }
        let generation = transfer.generation().clone();
        self.pending = Some((peer, generation));
        Ok(Some(transfer.into_text()))
    }

    /// The application that the native clipboard reported as done.
    pub fn take_pending(&mut self) -> (pending: Option<(NodeId, ClipboardGeneration)>)
        ensures
            match pending {
                Some((peer, generation)) => old(self)@.pending == Some((peer@, generation@)),
                None => old(self)@.pending is None,
            },
            final(self)@ == (ApplicationsView { pending: None, ..old(self)@ }),
    {
        let mut pending: Option<(NodeId, ClipboardGeneration)> = None;
        std::mem::swap(&mut self.pending, &mut pending);
        pending
    }

    /// Forgets the waiting texts of a peer.
    pub fn forget(&mut self, peer: &NodeId)
        ensures
            final(self)@ == old(self)@.without(peer@),
    {
        let ghost before = self@.queued;
        let mut queued: VecDeque<(NodeId, ClipboardText)> = VecDeque::new();
        let mut index: usize = 0;
        proof {
            reveal(Seq::filter);
            assert(queue_views(queued@) =~= Seq::empty());
            assert(before.take(0) =~= Seq::empty());
        }
        while index < self.queued.len()
            invariant
                index <= self.queued@.len(),
                before == self@.queued,
                queue_views(queued@) == before.take(index as int).filter(
                    |entry: (Seq<char>, crate::protocol::clipboard::TextView)| entry.0 != peer@,
                ),
            decreases self.queued@.len() - index,
        {
            let entry = &self.queued[index];
            let ghost kept = queue_views(queued@);
            proof {
                reveal(Seq::filter);
                assert(before[index as int] == (entry.0@, entry.1@));
                assert(before.take(index + 1).drop_last() =~= before.take(index as int));
                assert(before.take(index + 1).last() == (entry.0@, entry.1@));
            }
            if entry.0 != *peer {
                queued.push_back((entry.0.clone(), entry.1.clone()));
                assert(queue_views(queued@) =~= kept.push((entry.0@, entry.1@)));
            }
            index += 1;
        }
        assert(before.take(index as int) =~= before);
        self.queued = queued;
    }
}

} // verus!
