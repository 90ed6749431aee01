//! What a running session has others do.

use vstd::prelude::*;

use crate::domain::identity::NodeId;
use crate::domain::topology::Edge;
use crate::protocol::clipboard::ClipboardText;
use crate::protocol::message::Session;
use crate::runtime::event::RuntimeEvent;

verus! {

/// What is to be done, in the order of the list that it stands in.
#[allow(inconsistent_fields)]
#[derive(Debug)]
pub enum Effect {
    /// A message goes to a peer. The session ends where it cannot be queued.
    Send { peer: NodeId, message: Session },
    /// A message goes to a peer if it can be queued.
    Offer { peer: NodeId, message: Session },
    /// A clipboard text goes to a peer. The session ends where it cannot be
    /// queued.
    Transfer { peer: NodeId, transfer: ClipboardText },
    /// The connection of a peer is given up, after a farewell if one can be
    /// queued.
    Dismiss { peer: NodeId, farewell: bool },
    /// The new connection is not wanted.
    Decline,
    /// The new connection is kept.
    Keep { peer: NodeId, session_id: u128, clipboard: bool },
    ReleaseCapture,
    ConfigureCapture { edges: Vec<Edge> },
    ApplyClipboard { text: String },
    StopClipboard,
    Tell(RuntimeEvent),
}

#[allow(inconsistent_fields)]
pub ghost enum EffectView {
    Send { peer: Seq<char>, message: crate::protocol::message::SessionView },
    Offer { peer: Seq<char>, message: crate::protocol::message::SessionView },
    Transfer { peer: Seq<char>, transfer: crate::protocol::clipboard::TextView },
    Dismiss { peer: Seq<char>, farewell: bool },
    Decline,
    Keep { peer: Seq<char>, session_id: u128, clipboard: bool },
    ReleaseCapture,
    ConfigureCapture { edges: Seq<Edge> },
    ApplyClipboard { text: Seq<char> },
    StopClipboard,
    Tell(crate::runtime::event::EventView),
}

impl View for Effect {
    type V = EffectView;

    open spec fn view(&self) -> EffectView {
        match self {
            Effect::Send { peer, message } => EffectView::Send { peer: peer@, message: message@ },
            Effect::Offer { peer, message } => EffectView::Offer {
                peer: peer@,
                message: message@,
            },
            Effect::Transfer { peer, transfer } => EffectView::Transfer {
                peer: peer@,
                transfer: transfer@,
            },
            Effect::Dismiss { peer, farewell } => EffectView::Dismiss {
                peer: peer@,
                farewell: *farewell,
            },
            Effect::Decline => EffectView::Decline,
            Effect::Keep { peer, session_id, clipboard } => EffectView::Keep {
                peer: peer@,
                session_id: *session_id,
                clipboard: *clipboard,
            },
            Effect::ReleaseCapture => EffectView::ReleaseCapture,
            Effect::ConfigureCapture { edges } => EffectView::ConfigureCapture { edges: edges@ },
            Effect::ApplyClipboard { text } => EffectView::ApplyClipboard { text: text@ },
            Effect::StopClipboard => EffectView::StopClipboard,
            Effect::Tell(event) => EffectView::Tell(event@),
        }
    }
}

pub open spec fn effect_views(effects: Seq<Effect>) -> Seq<EffectView> {
    effects.map_values(|effect: Effect| effect@)
}

/// An error is told.
pub open spec fn told(message: Seq<char>) -> EffectView {
    EffectView::Tell(crate::runtime::event::EventView::Error { message })
}

/// A change of focus is told.
pub open spec fn focus_told(node: Seq<char>) -> EffectView {
    EffectView::Tell(crate::runtime::event::EventView::FocusChanged { node })
}

pub(crate) fn no_effects() -> (effects: Vec<Effect>)
    ensures
        effect_views(effects@) == Seq::<EffectView>::empty(),
{
    let effects: Vec<Effect> = Vec::new();
    assert(effect_views(effects@) =~= Seq::<EffectView>::empty());
    effects
}

pub(crate) fn emit(effects: &mut Vec<Effect>, effect: Effect)
    ensures
        effect_views(final(effects)@) == effect_views(old(effects)@).push(effect@),
{
    let ghost before = effect_views(effects@);
    effects.push(effect);
    assert(effect_views(effects@) =~= before.push(effect@));
}

pub(crate) fn tell_error(effects: &mut Vec<Effect>, message: String)
    ensures
        effect_views(final(effects)@) == effect_views(old(effects)@).push(told(message@)),
{
    emit(effects, Effect::Tell(RuntimeEvent::Error { message }));
}

pub(crate) fn tell_focus(effects: &mut Vec<Effect>, node: &NodeId)
    ensures
        effect_views(final(effects)@) == effect_views(old(effects)@).push(focus_told(node@)),
{
    emit(effects, Effect::Tell(RuntimeEvent::FocusChanged { node: node.clone() }));
}

} // verus!
