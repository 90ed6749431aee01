//! The clipboard of a desktop portal: what is asked of the portal and what is
//! told for each thing that happens there.

use vstd::prelude::*;
use vstd::string::*;

use crate::platform::clipboard::{
    is_foreign_change, is_supported_text_mime, text_mime_type, ClipboardServiceEvent,
};
use crate::text::{push_decimal, text_from_utf8};

verus! {

pub const SET_OPERATION: &'static str = "set Wayland clipboard";

pub const READ_OPERATION: &'static str = "read Wayland clipboard";

/// What the portal is asked for.
#[derive(Debug, PartialEq, Eq)]
pub enum PortalRequest {
    /// Read the selection in this format.
    Read { mime_type: String },
    /// Hand out a text in answer to a request.
    Write { serial: u32, text: String },
    /// Answer that nothing is handed out.
    Refuse { serial: u32 },
}

pub ghost enum RequestView {
    Read { mime_type: Seq<char> },
    Write { serial: u32, text: Seq<char> },
    Refuse { serial: u32 },
}

impl View for PortalRequest {
    type V = RequestView;

    open spec fn view(&self) -> RequestView {
        match self {
            PortalRequest::Read { mime_type } => RequestView::Read { mime_type: mime_type@ },
            PortalRequest::Write { serial, text } => RequestView::Write {
                serial: *serial,
                text: text@,
            },
            PortalRequest::Refuse { serial } => RequestView::Refuse { serial: *serial },
        }
    }
}

pub open spec fn request_view(request: Option<PortalRequest>) -> Option<RequestView> {
    match request {
        Some(request) => Some(request@),
        None => None,
    }
}

/// The clipboard of this node at the portal: the text that it owns the selection
/// with, if it does.
#[derive(Debug)]
pub struct PortalClipboard {
    owned: Option<String>,
    maximum_text_bytes: usize,
}

pub ghost struct PortalView {
    pub owned: Option<Seq<char>>,
    pub maximum_text_bytes: usize,
}

impl View for PortalClipboard {
    type V = PortalView;

    closed spec fn view(&self) -> PortalView {
        PortalView {
            owned: crate::platform::clipboard::text_view(self.owned),
            maximum_text_bytes: self.maximum_text_bytes,
        }
    }
}

/// `event` tells that an operation failed for this reason.
pub open spec fn is_failure(
    event: ClipboardServiceEvent,
    operation: Seq<char>,
    reason: Seq<char>,
) -> bool {
    event matches ClipboardServiceEvent::Failed { operation: told, reason: cause } && told@
        == operation && cause@ == reason
}

/// What another owner of the selection comes to. Only one outside this session
/// is read, and only as text.
pub open spec fn is_change_request(
    request: Option<RequestView>,
    belongs_to_session: bool,
    session_is_owner: Option<bool>,
    mime_types: Seq<Seq<char>>,
) -> bool {
    if belongs_to_session && session_is_owner != Some(true) {
        match request {
            Some(request) => exists|index: int| #[trigger]
                crate::platform::clipboard::is_preferred(mime_types, index) && request
                    == (RequestView::Read { mime_type: mime_types[index] }),
            None => forall|i: int|
                0 <= i < mime_types.len() ==> !crate::platform::clipboard::is_utf8_text(
                    #[trigger] mime_types[i],
                ) && !crate::platform::clipboard::is_plain_text(mime_types[i]),
        }
    } else {
        request is None
    }
}

/// How a request for the selection is answered.
pub open spec fn transfer_answer(
    state: PortalView,
    belongs_to_session: bool,
    mime_type: Seq<char>,
    serial: u32,
) -> Option<RequestView> {
    if !belongs_to_session {
        None
    } else {
        match state.owned {
            Some(text) => if crate::platform::clipboard::is_offered_type(mime_type) {
                Some(RequestView::Write { serial, text })
            } else {
                Some(RequestView::Refuse { serial })
            },
            None => Some(RequestView::Refuse { serial }),
        }
    }
}

/// A text of so many bytes is too long.
pub open spec fn excess_text(length: usize, maximum: usize) -> Seq<char> {
    "clipboard text is "@ + crate::text::decimal(length as nat) + " bytes; the maximum is "@
        + crate::text::decimal(maximum as nat)
}

/// What is told of a selection of which these bytes were read, or which could
/// not be read for the reason given.
pub open spec fn is_selection_event(
    event: ClipboardServiceEvent,
    maximum: usize,
    read: Result<Seq<u8>, Seq<char>>,
) -> bool {
    match read {
        Err(reason) => is_failure(event, READ_OPERATION@, reason),
        Ok(bytes) => if bytes.len() > maximum {
            is_failure(event, READ_OPERATION@, excess_text(bytes.len() as usize, maximum))
        } else if vstd::utf8::valid_utf8(bytes) {
            event matches ClipboardServiceEvent::Changed { text: told } && told@
                == vstd::utf8::decode_utf8(bytes)
        } else {
            is_failure(event, READ_OPERATION@, crate::text::utf8_refusal(bytes))
        },
    }
}

/// The state once the portal was told to take a text over, with this outcome.
pub open spec fn portal_after(
    state: PortalView,
    text: Seq<char>,
    outcome: Result<(), String>,
) -> PortalView {
    match outcome {
        Ok(_) => PortalView { owned: Some(text), ..state },
        Err(_) => state,
    }
}

impl PortalClipboard {
    /// A clipboard that owns no selection.
    pub fn new(maximum_text_bytes: usize) -> (clipboard: PortalClipboard)
        ensures
            clipboard@ == (PortalView { owned: None, maximum_text_bytes }),
    {
        PortalClipboard { owned: None, maximum_text_bytes }
    }

    /// The portal was told to take a text over, with this outcome.
    pub fn applied(&mut self, text: String, outcome: Result<(), String>) -> (event:
        ClipboardServiceEvent)
        ensures
            match outcome {
                Ok(_) => event is Applied,
                Err(reason) => is_failure(event, SET_OPERATION@, reason@),
            },
            final(self)@ == portal_after(old(self)@, text@, outcome),
    {
        match outcome {
            Ok(()) => {
                self.owned = Some(text);
                ClipboardServiceEvent::Applied
            },
            Err(reason) => ClipboardServiceEvent::Failed { operation: SET_OPERATION, reason },
        }
    }

    /// The owner of the selection changed.
    pub fn owner_changed(
        &self,
        belongs_to_session: bool,
        session_is_owner: Option<bool>,
        mime_types: &[String],
    ) -> (request: Option<PortalRequest>)
        ensures
            is_change_request(
                request_view(request),
                belongs_to_session,
                session_is_owner,
                crate::platform::clipboard::type_views(mime_types@),
            ),
    {
        if !is_foreign_change(belongs_to_session, session_is_owner) {
            return None;
        }
        match text_mime_type(mime_types) {
            Some(mime_type) => Some(PortalRequest::Read { mime_type: mime_type.to_owned() }),
            None => None,
        }
    }

    /// The selection of another owner was read: these bytes, or why none came.
    pub fn selection_read(&self, read: Result<Vec<u8>, String>) -> (event: ClipboardServiceEvent)
        ensures
            is_selection_event(
                event,
                self@.maximum_text_bytes,
                match read {
                    Ok(bytes) => Ok(bytes@),
                    Err(reason) => Err(reason@),
                },
            ),
    {
        let bytes = match read {
            Ok(bytes) => bytes,
            Err(reason) => {
                return ClipboardServiceEvent::Failed { operation: READ_OPERATION, reason };
            },
        };
        let length: usize = bytes.len();
        if length > self.maximum_text_bytes {
            let mut reason = "clipboard text is ".to_owned();
            push_decimal(&mut reason, length as u64);
            reason.append(" bytes; the maximum is ");
            push_decimal(&mut reason, self.maximum_text_bytes as u64);
            return ClipboardServiceEvent::Failed { operation: READ_OPERATION, reason };
        }
        match text_from_utf8(bytes) {
            Ok(text) => ClipboardServiceEvent::Changed { text },
            Err(reason) => ClipboardServiceEvent::Failed { operation: READ_OPERATION, reason },
        }
    }

    /// The selection was asked for.
    pub fn transfer_requested(&self, belongs_to_session: bool, mime_type: &str, serial: u32) -> (
    request: Option<PortalRequest>)
        ensures
            request_view(request) == transfer_answer(
                self@,
                belongs_to_session,
                mime_type@,
                serial,
            ),
    {
        if !belongs_to_session {
            return None;
        }
        match &self.owned {
            Some(text) => if is_supported_text_mime(mime_type) {
                Some(PortalRequest::Write { serial, text: text.clone() })
            } else {
                Some(PortalRequest::Refuse { serial })
            },
            None => Some(PortalRequest::Refuse { serial }),
        }
    }
}

/// Whoever asks for the selection in a text format gets the text that was
/// applied last, and a text that the portal did not take over is never handed
/// out.
pub proof fn law_applied_text_is_handed_out(
    state: PortalView,
    text: Seq<char>,
    outcome: Result<(), String>,
    mime_type: Seq<char>,
    serial: u32,
)
    requires
        crate::platform::clipboard::is_offered_type(mime_type),
    ensures
        outcome is Ok ==> transfer_answer(
            portal_after(state, text, outcome),
            true,
            mime_type,
            serial,
        ) == Some(RequestView::Write { serial, text }),
        outcome is Err ==> transfer_answer(
            portal_after(state, text, outcome),
            true,
            mime_type,
            serial,
        ) == transfer_answer(state, true, mime_type, serial),
{
}

/// What other sessions do with the selection has no answer, and neither has a
/// change that this node made itself.
pub proof fn law_foreign_sessions_have_no_answer(
    state: PortalView,
    mime_type: Seq<char>,
    serial: u32,
    request: Option<RequestView>,
    session_is_owner: Option<bool>,
    mime_types: Seq<Seq<char>>,
)
    ensures
        transfer_answer(state, false, mime_type, serial) is None,
        is_change_request(request, false, session_is_owner, mime_types) ==> request is None,
        is_change_request(request, true, Some(true), mime_types) ==> request is None,
{
}

} // verus!
