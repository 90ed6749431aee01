//! Notices about what happened.

use vstd::prelude::*;
use vstd::string::*;

use crate::domain::arrangement::ScreenPlacement;
use crate::domain::identity::NodeId;
use crate::runtime::event::RuntimeEvent;
use crate::text::push_decimal;
use crate::window::labels::push_counted;
use crate::window::status::{SessionState, Tone};

verus! {

/// A line that tells what happened.
#[derive(Debug)]
pub struct Notice {
    pub message: String,
    pub tone: Tone,
}

pub ghost struct NoticeView {
    pub message: Seq<char>,
    pub tone: Tone,
}

impl View for Notice {
    type V = NoticeView;

    open spec fn view(&self) -> NoticeView {
        NoticeView { message: self.message@, tone: self.tone }
    }
}

impl Notice {
    pub fn success(message: String) -> (notice: Notice)
        ensures
            notice@ == (NoticeView { message: message@, tone: Tone::Success }),
    {
        Notice { message, tone: Tone::Success }
    }

    pub fn error(message: String) -> (notice: Notice)
        ensures
            notice@ == (NoticeView { message: message@, tone: Tone::Danger }),
    {
        Notice { message, tone: Tone::Danger }
    }

    pub fn info(message: String) -> (notice: Notice)
        ensures
            notice@ == (NoticeView { message: message@, tone: Tone::Accent }),
    {
        Notice { message, tone: Tone::Accent }
    }
}

/// A desktop that changed, in words.
pub open spec fn display_text(
    screen: crate::domain::arrangement::PlacementView,
    monitor_count: u32,
) -> Seq<char> {
    screen.node + " desktop updated to "@ + crate::text::decimal(
        screen.bounds.size.width@ as nat,
    ) + " x "@ + crate::text::decimal(screen.bounds.size.height@ as nat) + " across "@
        + crate::window::labels::counted(monitor_count as nat, "display"@)
}

fn display_message(screen: &ScreenPlacement, monitor_count: u32) -> (message: String)
    ensures
        message@ == display_text(screen@, monitor_count),
{
    let mut message = screen.node.as_str().to_owned();
    message.append(" desktop updated to ");
    push_decimal(&mut message, screen.bounds.size.width.get() as u64);
    message.append(" x ");
    push_decimal(&mut message, screen.bounds.size.height.get() as u64);
    message.append(" across ");
    push_counted(&mut message, monitor_count as u64, "display");
    message
}

/// The notice that an event of the session gives, in the state before it.
pub open spec fn notice_of(
    event: crate::runtime::event::EventView,
    state: crate::window::status::StatusView,
) -> Option<NoticeView> {
    match event {
        crate::runtime::event::EventView::Connected { peer, session_id } => Some(
            NoticeView { message: "Connected to "@ + peer, tone: Tone::Success },
        ),
        crate::runtime::event::EventView::AgentControl { controller, active } => if active {
            Some(NoticeView { message: "Controlled by "@ + controller, tone: Tone::Accent })
        } else {
            None
        },
        crate::runtime::event::EventView::FocusChanged { node } => {
            if state.connected.dom().contains(node) {
                Some(NoticeView { message: "Controlling "@ + node, tone: Tone::Accent })
            } else {
                None
            }
        },
        crate::runtime::event::EventView::DisplayChanged { screen, monitor_count } => Some(
            NoticeView { message: display_text(screen, monitor_count), tone: Tone::Accent },
        ),
        crate::runtime::event::EventView::ConfigurationApplied => Some(
            NoticeView { message: "Configuration applied"@, tone: Tone::Success },
        ),
        crate::runtime::event::EventView::ClipboardReady { backend } => Some(
            NoticeView { message: "Clipboard synchronization ready"@, tone: Tone::Success },
        ),
        crate::runtime::event::EventView::ClipboardSynchronized { peer, received } => Some(
            NoticeView {
                message: if received {
                    "Clipboard received from "@ + peer
                } else {
                    "Clipboard sent to "@ + peer
                },
                tone: Tone::Accent,
            },
        ),
        crate::runtime::event::EventView::Error { message } => Some(
            NoticeView { message, tone: Tone::Danger },
        ),
        _ => None,
    }
}

pub open spec fn optional_notice(notice: Option<Notice>) -> Option<NoticeView> {
    match notice {
        Some(notice) => Some(notice@),
        None => None,
    }
}

fn about(prefix: &str, node: &NodeId) -> (message: String)
    ensures
        message@ == prefix@ + node@,
{
    let mut message = prefix.to_owned();
    message.append(node.as_str());
    message
}

/// The notice that an event of the session gives, if it gives one.
pub fn session_notice(event: &RuntimeEvent, state: &SessionState) -> (notice: Option<Notice>)
    ensures
        optional_notice(notice) == notice_of(event@, state@),
{
    match event {
        RuntimeEvent::Connected { peer, session_id: _ } => Some(
            Notice::success(about("Connected to ", peer)),
        ),
        RuntimeEvent::AgentControl { controller, active } => if *active {
            Some(Notice::info(about("Controlled by ", controller)))
        } else {
            None
        },
        RuntimeEvent::FocusChanged { node } => if state.connected.get(node).is_some() {
            Some(Notice::info(about("Controlling ", node)))
        } else {
            None
        },
        RuntimeEvent::DisplayChanged { screen, monitor_count } => Some(
            Notice::info(display_message(screen, *monitor_count)),
        ),
        RuntimeEvent::ConfigurationApplied => Some(
            Notice::success("Configuration applied".to_owned()),
        ),
        RuntimeEvent::ClipboardReady { .. } => Some(
            Notice::success("Clipboard synchronization ready".to_owned()),
        ),
        RuntimeEvent::ClipboardSynchronized { peer, received } => if *received {
            Some(Notice::info(about("Clipboard received from ", peer)))
        } else {
            Some(Notice::info(about("Clipboard sent to ", peer)))
        },
        RuntimeEvent::Error { message } => Some(Notice::error(message.clone())),
        RuntimeEvent::Starting { .. }
        | RuntimeEvent::Listening { .. }
        | RuntimeEvent::Connecting { .. }
        | RuntimeEvent::Disconnected { .. }
        | RuntimeEvent::NativeReady { .. }
        | RuntimeEvent::LocalDesktopChanged { .. }
        | RuntimeEvent::Stopped => None,
    }
}

} // verus!
