//! What the host offers, and why a native service fails.

use vstd::prelude::*;
use vstd::string::*;

use crate::domain::host::HostPlatform;
use crate::text::{chars_of, push_decimal};

verus! {

#[derive(Clone, Copy, Debug, PartialEq, Eq, Structural)]
pub enum EnvironmentStatus {
    Available,
    Unavailable,
}

#[derive(Clone, Copy, Debug, PartialEq, Eq, Structural)]
pub enum PlatformIssue {
    NotWaylandSession,
    MissingWaylandDisplay,
    MissingSessionBus,
}

impl PlatformIssue {
    /// The issue in words.
    pub fn message(self) -> (message: &'static str)
        ensures
            message@ == match self {
                PlatformIssue::NotWaylandSession => "XDG_SESSION_TYPE is not `wayland`"@,
                PlatformIssue::MissingWaylandDisplay => "WAYLAND_DISPLAY is not set"@,
                PlatformIssue::MissingSessionBus => "DBUS_SESSION_BUS_ADDRESS is not set"@,
            },
    {
        match self {
            PlatformIssue::NotWaylandSession => "XDG_SESSION_TYPE is not `wayland`",
            PlatformIssue::MissingWaylandDisplay => "WAYLAND_DISPLAY is not set",
            PlatformIssue::MissingSessionBus => "DBUS_SESSION_BUS_ADDRESS is not set",
        }
    }
}

/// Whether the host can run the native services, and what is missing.
#[derive(Debug, PartialEq, Eq)]
pub struct PlatformReport {
    pub platform: HostPlatform,
    pub status: EnvironmentStatus,
    pub issues: Vec<PlatformIssue>,
}

impl PlatformReport {
    pub fn is_available(&self) -> (result: bool)
        ensures
            result == (self.status == EnvironmentStatus::Available),
    {
        self.status == EnvironmentStatus::Available
    }
}

/// `a` and `b` differ in the case of ASCII letters at most.
pub open spec fn same_ignoring_case(a: Seq<char>, b: Seq<char>) -> bool {
    crate::identity::pairing::lowered(a) == crate::identity::pairing::lowered(b)
}

/// The session type names a Wayland session.
pub open spec fn is_wayland_session(session_type: Option<Seq<char>>) -> bool {
    match session_type {
        Some(text) => same_ignoring_case(text, "wayland"@),
        None => false,
    }
}

/// What an environment lacks for the portal sessions.
pub open spec fn environment_issues(
    session_type: Option<Seq<char>>,
    has_wayland_display: bool,
    has_session_bus: bool,
) -> Seq<PlatformIssue> {
    (if is_wayland_session(session_type) {
        Seq::empty()
    } else {
        seq![PlatformIssue::NotWaylandSession]
    }) + (if has_wayland_display {
        Seq::empty()
    } else {
        seq![PlatformIssue::MissingWaylandDisplay]
    }) + (if has_session_bus {
        Seq::empty()
    } else {
        seq![PlatformIssue::MissingSessionBus]
    })
}

pub(crate) fn lower_ascii(character: char) -> (lower: char)
    ensures
        lower == crate::identity::pairing::ascii_lower(character),
{
    if character >= 'A' && character <= 'Z' {
        ((character as u32 + 0x20) as u8) as char
    } else {
        character
    }
}

pub(crate) fn equal_ignoring_case(a: &str, b: &str) -> (result: bool)
    ensures
        result == same_ignoring_case(a@, b@),
{
    let mine = chars_of(a);
    let theirs = chars_of(b);
    let ghost lower_mine = crate::identity::pairing::lowered(a@);
    let ghost lower_theirs = crate::identity::pairing::lowered(b@);
    if mine.len() != theirs.len() {
        assert(lower_mine.len() != lower_theirs.len());
        return false;
    }
    let mut index: usize = 0;
    while index < mine.len()
        invariant
            index <= mine@.len(),
            mine@.len() == theirs@.len(),
            mine@ == a@,
            theirs@ == b@,
            lower_mine == crate::identity::pairing::lowered(a@),
            lower_theirs == crate::identity::pairing::lowered(b@),
            forall|i: int| 0 <= i < index ==> #[trigger] lower_mine[i] == lower_theirs[i],
        decreases mine@.len() - index,
    {
        if lower_ascii(mine[index]) != lower_ascii(theirs[index]) {
            assert(lower_mine[index as int] != lower_theirs[index as int]);
            return false;
        }
        index += 1;
    }
    assert(lower_mine =~= lower_theirs);
    true
}

/// Checks the environment that portal sessions require. A session type that is
/// not text counts as none.
pub fn probe_environment(
    session_type: Option<&str>,
    has_wayland_display: bool,
    has_session_bus: bool,
) -> (report: PlatformReport)
    ensures
        report.platform == HostPlatform::LinuxWayland,
        report.issues@ == environment_issues(
            match session_type {
                Some(text) => Some(text@),
                None => None,
            },
            has_wayland_display,
            has_session_bus,
        ),
        report.status == if report.issues@.len() == 0 {
            EnvironmentStatus::Available
        } else {
            EnvironmentStatus::Unavailable
        },
{
    let mut issues: Vec<PlatformIssue> = Vec::new();
    let is_wayland = match session_type {
        Some(text) => equal_ignoring_case(text, "wayland"),
        None => false,
    };
    if !is_wayland {
        issues.push(PlatformIssue::NotWaylandSession);
    }
    if !has_wayland_display {
        issues.push(PlatformIssue::MissingWaylandDisplay);
    }
    if !has_session_bus {
        issues.push(PlatformIssue::MissingSessionBus);
    }
    let status = if issues.len() == 0 {
        EnvironmentStatus::Available
    } else {
        EnvironmentStatus::Unavailable
    };
    PlatformReport { platform: HostPlatform::LinuxWayland, status, issues }
}

/// A Windows desktop needs nothing of its environment.
pub fn probe_windows() -> (report: PlatformReport)
    ensures
        report.platform == HostPlatform::Windows,
        report.status == EnvironmentStatus::Available,
        report.issues@.len() == 0,
{
    PlatformReport {
        platform: HostPlatform::Windows,
        status: EnvironmentStatus::Available,
        issues: Vec::new(),
    }
}

/// The native interfaces that input and clipboard texts go through.
#[derive(Clone, Copy, Debug, PartialEq, Eq, Structural)]
pub enum BackendKind {
    LinuxWaylandClipboardPortal,
    LinuxWaylandInputCapture,
    LinuxWaylandRemoteDesktop,
    WindowsClipboard,
    WindowsHooks,
    WindowsSendInput,
}

/// The interface that input is captured by on this platform.
pub fn native_capture_kind(platform: HostPlatform) -> (kind: BackendKind)
    ensures
        kind == match platform {
            HostPlatform::LinuxWayland => BackendKind::LinuxWaylandInputCapture,
            HostPlatform::Windows => BackendKind::WindowsHooks,
        },
{
    match platform {
        HostPlatform::LinuxWayland => BackendKind::LinuxWaylandInputCapture,
        HostPlatform::Windows => BackendKind::WindowsHooks,
    }
}

/// The interface that input is injected by on this platform.
pub fn native_emulation_kind(platform: HostPlatform) -> (kind: BackendKind)
    ensures
        kind == match platform {
            HostPlatform::LinuxWayland => BackendKind::LinuxWaylandRemoteDesktop,
            HostPlatform::Windows => BackendKind::WindowsSendInput,
        },
{
    match platform {
        HostPlatform::LinuxWayland => BackendKind::LinuxWaylandRemoteDesktop,
        HostPlatform::Windows => BackendKind::WindowsSendInput,
    }
}

/// The interface that clipboard texts go through on this platform.
pub fn native_clipboard_kind(platform: HostPlatform) -> (kind: BackendKind)
    ensures
        kind == match platform {
            HostPlatform::LinuxWayland => BackendKind::LinuxWaylandClipboardPortal,
            HostPlatform::Windows => BackendKind::WindowsClipboard,
        },
{
    match platform {
        HostPlatform::LinuxWayland => BackendKind::LinuxWaylandClipboardPortal,
        HostPlatform::Windows => BackendKind::WindowsClipboard,
    }
}

/// Why a native service does not do what it was asked to.
#[allow(inconsistent_fields)]
#[derive(Debug, PartialEq, Eq)]
pub enum BackendError {
    Unavailable { reason: String },
    PermissionDenied { permission: &'static str },
    Operation { operation: &'static str, reason: String },
    CommandQueueFull,
    EmptyInputBatch,
    SessionGenerationExhausted,
    WorkerStopped,
    WorkerPanicked,
    ClipboardTextTooLarge { actual: usize, maximum: usize },
}

impl BackendError {
    /// The error in words.
    pub open spec fn text(self) -> Seq<char> {
        match self {
            BackendError::Unavailable { reason } => "platform backend is unavailable: "@ + reason@,
            BackendError::PermissionDenied { permission } => "platform permission was denied: "@
                + permission@,
            BackendError::Operation { operation, reason } => "platform operation `"@ + operation@
                + "` failed: "@ + reason@,
            BackendError::CommandQueueFull => "backend command queue is full"@,
            BackendError::EmptyInputBatch => "native input batch cannot be empty"@,
            BackendError::SessionGenerationExhausted => {
                "native input session generation is exhausted"@
            },
            BackendError::WorkerStopped => "backend worker has stopped"@,
            BackendError::WorkerPanicked => "backend worker thread panicked"@,
            BackendError::ClipboardTextTooLarge { actual, maximum } => "clipboard text is "@
                + crate::text::decimal(actual as nat) + " bytes; the maximum is "@
                + crate::text::decimal(maximum as nat),
        }
    }

    /// The error in words.
    pub fn message(&self) -> (message: String)
        ensures
            message@ == self.text(),
    {
        let mut message = String::new();
        match self {
            BackendError::Unavailable { reason } => {
                message.append("platform backend is unavailable: ");
                message.append(reason.as_str());
            },
            BackendError::PermissionDenied { permission } => {
                message.append("platform permission was denied: ");
                message.append(permission);
            },
            BackendError::Operation { operation, reason } => {
                message.append("platform operation `");
                message.append(operation);
                message.append("` failed: ");
                message.append(reason.as_str());
            },
            BackendError::CommandQueueFull => message.append("backend command queue is full"),
            BackendError::EmptyInputBatch => {
                message.append("native input batch cannot be empty")
            },
            BackendError::SessionGenerationExhausted => {
                message.append("native input session generation is exhausted")
            },
            BackendError::WorkerStopped => message.append("backend worker has stopped"),
            BackendError::WorkerPanicked => message.append("backend worker thread panicked"),
            BackendError::ClipboardTextTooLarge { actual, maximum } => {
                message.append("clipboard text is ");
                push_decimal(&mut message, *actual as u64);
                message.append(" bytes; the maximum is ");
                push_decimal(&mut message, *maximum as u64);
            },
        }
        assert(message@ =~= self.text());
        message
    }
}

} // verus!
