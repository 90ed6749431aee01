use tevir::domain::geometry::{Point, Size};
use tevir::domain::host::HostPlatform;
use tevir::domain::input::{
    ButtonAction, InputEvent, InputKind, KeyAction, MouseButton, PhysicalKey, ScrollDelta,
};
use tevir::domain::nonzero::{NonZeroU16, NonZeroU32};
use tevir::domain::topology::Edge;
use tevir::platform::capture::{AfterRelease, CaptureAction, CaptureOperation, CaptureState};
use tevir::platform::clipboard::{
    is_foreign_change, is_supported_text_mime, text_mime_type, validate_text_length, ClipboardNews,
    ClipboardServiceEvent, WatchedClipboard,
};
use tevir::platform::convert::{
    evdev_for_hid, from_native, hid_key_for_evdev, mouse_button_from_native, native_mouse_button,
    to_native, ConversionError, KeyboardEvent, NativeEvent, PointerEvent, BTN_BACK, BTN_FORWARD,
    BTN_LEFT, BTN_MIDDLE, BTN_RIGHT,
};
use tevir::platform::geometry::{
    absolute_position, barrier_position, capture_edge, capture_handle, desktop_barriers,
    geometry_from_rectangles, release_offset, taken_barriers, BarrierLine, DesktopGeometry,
    GeometryError, Rectangle, Region,
};
use tevir::platform::injection::{
    device_request, display_change, starting_geometry, DeviceFault, DeviceInterfaces, DeviceNews,
    DeviceRequest, InjectionDevices, InjectionState,
};
use tevir::platform::portal::{PortalClipboard, PortalRequest};
use tevir::platform::report::{
    native_capture_kind, native_clipboard_kind, native_emulation_kind, probe_environment,
    probe_windows, BackendError, BackendKind, EnvironmentStatus, PlatformIssue,
};
use tevir::platform::service::{
    check_batch, map_try_send_error, take_injection_generation, validate_edges, SendFailure,
};
use tevir::platform::state::HeldInput;

fn size(width: u32, height: u32) -> Size {
    Size::new(
        NonZeroU32::new(width).unwrap_or(NonZeroU32::min_value()),
        NonZeroU32::new(height).unwrap_or(NonZeroU32::min_value()),
    )
}

fn geometry(width: u32) -> DesktopGeometry {
    DesktopGeometry {
        origin: Point { x: 0, y: 0 },
        size: size(width, 1080),
        monitor_count: 1,
    }
}

fn key(usage: u16, action: KeyAction) -> InputEvent {
    InputEvent {
        elapsed_micros: 1,
        kind: InputKind::Key {
            key: PhysicalKey::new(0x07, usage),
            action,
        },
    }
}

#[test]
fn clipboard_text_limit_is_measured_in_utf8_bytes() {
    assert!(validate_text_length("four", 4).is_ok());
    assert!(validate_text_length("\u{00e9}", 2).is_ok());
    assert!(validate_text_length("\u{00e9}\u{00e9}", 3).is_err());
}

#[test]
fn text_mime_preference_is_deterministic() {
    let mime_types = vec![
        String::from("text/plain"),
        String::from("text/plain;charset=UTF-8"),
    ];
    assert_eq!(
        text_mime_type(&mime_types),
        Some("text/plain;charset=UTF-8")
    );
    assert_eq!(text_mime_type(&[String::from("image/png")]), None);
}

#[test]
fn owned_text_is_handed_out_as_text_only() {
    assert!(is_supported_text_mime("text/plain"));
    assert!(!is_supported_text_mime("image/png"));
    assert!(is_foreign_change(true, Some(false)));
    assert!(!is_foreign_change(true, Some(true)));
}

#[test]
fn the_portal_hands_out_what_was_applied() {
    let mut clipboard = PortalClipboard::new(8);
    assert_eq!(
        clipboard.transfer_requested(true, "text/plain", 3),
        Some(PortalRequest::Refuse { serial: 3 })
    );
    assert_eq!(
        clipboard.applied(String::from("kept"), Err(String::from("denied"))),
        ClipboardServiceEvent::Failed {
            operation: "set Wayland clipboard",
            reason: String::from("denied"),
        }
    );
    assert_eq!(
        clipboard.applied(String::from("text"), Ok(())),
        ClipboardServiceEvent::Applied
    );
    assert_eq!(
        clipboard.transfer_requested(true, "text/plain;charset=utf-8", 4),
        Some(PortalRequest::Write {
            serial: 4,
            text: String::from("text"),
        })
    );
    assert_eq!(
        clipboard.transfer_requested(true, "image/png", 5),
        Some(PortalRequest::Refuse { serial: 5 })
    );
    assert_eq!(clipboard.transfer_requested(false, "text/plain", 6), None);
}

#[test]
fn the_portal_reads_the_texts_of_others() {
    let clipboard = PortalClipboard::new(8);
    let types = [String::from("image/png"), String::from("TEXT/PLAIN")];
    assert_eq!(
        clipboard.owner_changed(true, Some(false), &types),
        Some(PortalRequest::Read {
            mime_type: String::from("TEXT/PLAIN"),
        })
    );
    assert_eq!(clipboard.owner_changed(true, None, &types[..1]), None);
    assert_eq!(clipboard.owner_changed(true, Some(true), &types), None);
    assert_eq!(clipboard.owner_changed(false, Some(false), &types), None);

    assert_eq!(
        clipboard.selection_read(Ok("t\u{e4}xt".as_bytes().to_vec())),
        ClipboardServiceEvent::Changed {
            text: String::from("t\u{e4}xt"),
        }
    );
    assert_eq!(
        clipboard.selection_read(Ok(vec![0xff; 9])),
        ClipboardServiceEvent::Failed {
            operation: "read Wayland clipboard",
            reason: String::from("clipboard text is 9 bytes; the maximum is 8"),
        }
    );
    assert_eq!(
        clipboard.selection_read(Err(String::from("invalid"))),
        ClipboardServiceEvent::Failed {
            operation: "read Wayland clipboard",
            reason: String::from("invalid"),
        }
    );
    assert_eq!(
        clipboard.selection_read(Ok(vec![b'a', 0xff])),
        ClipboardServiceEvent::Failed {
            operation: "read Wayland clipboard",
            reason: String::from("invalid utf-8 sequence of 1 bytes from index 1"),
        }
    );
}

#[test]
fn known_clipboard_texts_are_no_news() {
    let mut clipboard = WatchedClipboard::new(Some(String::from("old")), 4);
    assert_eq!(
        clipboard.observe(Ok(Some(String::from("old")))),
        ClipboardNews::Nothing
    );
    assert_eq!(
        clipboard.observe(Ok(Some(String::from("new")))),
        ClipboardNews::Changed(String::from("new"))
    );
    clipboard.applied(String::from("far"));
    assert_eq!(
        clipboard.observe(Ok(Some(String::from("far")))),
        ClipboardNews::Nothing
    );
    assert!(matches!(
        clipboard.observe(Ok(Some(String::from("large")))),
        ClipboardNews::TooLarge(BackendError::ClipboardTextTooLarge {
            actual: 5,
            maximum: 4
        })
    ));
    assert_eq!(
        clipboard.observe(Err(String::from("gone"))),
        ClipboardNews::Unreadable(String::from("gone"))
    );
}

#[test]
fn capture_edges_may_be_idle_but_must_be_unique() {
    assert!(validate_edges(&[]).is_ok());
    assert!(validate_edges(&[Edge::Left, Edge::Left]).is_err());
    assert!(validate_edges(&[Edge::Left, Edge::Right]).is_ok());
}

#[test]
fn native_session_generations_do_not_wrap() {
    let mut next = u64::MAX;

    assert!(matches!(
        take_injection_generation(&mut next),
        Err(BackendError::SessionGenerationExhausted)
    ));
}

#[test]
fn native_session_generations_count_up() {
    let mut next = 1;
    assert_eq!(take_injection_generation(&mut next), Ok(1));
    assert_eq!(take_injection_generation(&mut next), Ok(2));
    assert_eq!(next, 3);
}

#[test]
fn commands_fail_for_each_reason() {
    assert_eq!(
        map_try_send_error(SendFailure::Full),
        BackendError::CommandQueueFull
    );
    assert_eq!(
        map_try_send_error(SendFailure::Closed),
        BackendError::WorkerStopped
    );
    assert_eq!(check_batch(&Vec::new()), Err(BackendError::EmptyInputBatch));
    assert_eq!(check_batch(&vec![key(4, KeyAction::Press)]), Ok(()));
    assert_eq!(
        BackendError::Operation {
            operation: "inject input",
            reason: String::from("gone")
        }
        .message(),
        "platform operation `inject input` failed: gone"
    );
}

#[test]
fn releases_every_held_key_and_button() {
    let key = PhysicalKey::new(0x07, 0x04);
    let mut held = HeldInput::default();
    held.observe(InputEvent {
        elapsed_micros: 1,
        kind: InputKind::Key {
            key,
            action: KeyAction::Press,
        },
    });
    held.observe(InputEvent {
        elapsed_micros: 2,
        kind: InputKind::PointerButton {
            button: MouseButton::Primary,
            action: ButtonAction::Press,
        },
    });

    let releases = held.release_all(10);

    assert_eq!(releases.len(), 2);
    assert!(releases.iter().any(|event| {
        event.kind
            == InputKind::Key {
                key,
                action: KeyAction::Release,
            }
    }));
    assert!(releases.iter().any(|event| {
        event.kind
            == InputKind::PointerButton {
                button: MouseButton::Primary,
                action: ButtonAction::Release,
            }
    }));
    assert!(held.release_all(11).is_empty());
}

#[test]
fn released_input_is_not_released_again() {
    let mut held = HeldInput::new();
    held.observe(key(4, KeyAction::Press));
    held.observe(key(
        4,
        KeyAction::Repeat {
            count: NonZeroU16::min_value(),
        },
    ));
    held.observe(key(4, KeyAction::Release));
    assert!(held.release_all(1).is_empty());
}

#[test]
fn normalizes_evdev_keys_to_hid_and_back() {
    let native = NativeEvent::Keyboard(KeyboardEvent::Key {
        time: 42,
        key: 30,
        state: 1,
    });

    let event = from_native(native)
        .unwrap_or_else(|error| panic!("conversion failed: {error:?}"))
        .unwrap_or_else(|| panic!("key event must not be filtered"));

    assert_eq!(
        event.kind,
        InputKind::Key {
            key: PhysicalKey::new(0x07, 0x04),
            action: KeyAction::Press,
        }
    );
    assert_eq!(
        to_native(event).unwrap_or_else(|error| panic!("conversion failed: {error:?}")),
        native
    );
}

#[test]
fn retains_subpixel_pointer_motion() {
    let micropixels = |value: f64| (value * 1_000_000.0).round() as i64;
    let native = NativeEvent::Pointer(PointerEvent::Motion {
        time: 7,
        dx_micropixels: micropixels(0.125),
        dy_micropixels: micropixels(-1.75),
    });
    let event = from_native(native)
        .unwrap_or_else(|error| panic!("conversion failed: {error:?}"))
        .unwrap_or_else(|| panic!("pointer event must not be filtered"));

    assert_eq!(
        event.kind,
        InputKind::PointerRelative {
            dx_micropixels: 125_000,
            dy_micropixels: -1_750_000,
        }
    );
}

#[test]
fn keys_of_the_other_usage_pages_are_found() {
    assert_eq!(hid_key_for_evdev(164), Ok(PhysicalKey::new(0x0c, 0xcd)));
    assert_eq!(evdev_for_hid(PhysicalKey::new(0x0c, 0xcd)), Ok(164));
    assert_eq!(evdev_for_hid(PhysicalKey::new(0x07, 0x29)), Ok(1));
    assert_eq!(
        hid_key_for_evdev(0x2ff),
        Err(ConversionError::UnknownEvdevKey(0x2ff))
    );
    assert_eq!(
        hid_key_for_evdev(0x1_001e),
        Err(ConversionError::UnknownEvdevKey(0x1_001e))
    );
    assert_eq!(
        evdev_for_hid(PhysicalKey::new(0x99, 0x04)),
        Err(ConversionError::UnknownHidKey {
            usage_page: 0x99,
            usage_id: 0x04
        })
    );
}

#[test]
fn buttons_have_the_codes_of_the_input_layer() {
    assert_eq!(BTN_LEFT, input_event::BTN_LEFT);
    assert_eq!(BTN_RIGHT, input_event::BTN_RIGHT);
    assert_eq!(BTN_MIDDLE, input_event::BTN_MIDDLE);
    assert_eq!(BTN_BACK, input_event::BTN_BACK);
    assert_eq!(BTN_FORWARD, input_event::BTN_FORWARD);
    assert_eq!(
        mouse_button_from_native(BTN_RIGHT),
        Ok(MouseButton::Secondary)
    );
    assert_eq!(native_mouse_button(MouseButton::Middle), BTN_MIDDLE);
}

#[test]
fn odd_native_events_are_refused() {
    assert_eq!(
        from_native(NativeEvent::Keyboard(KeyboardEvent::Key {
            time: 0,
            key: 30,
            state: 9
        })),
        Err(ConversionError::UnknownKeyState(9))
    );
    assert_eq!(
        from_native(NativeEvent::Pointer(PointerEvent::Button {
            time: 0,
            button: BTN_LEFT,
            state: 9
        })),
        Err(ConversionError::UnknownButtonState(9))
    );
    assert_eq!(
        from_native(NativeEvent::Pointer(PointerEvent::AxisDiscrete120 {
            axis: 9,
            value: 120
        })),
        Err(ConversionError::UnknownAxis(9))
    );
    assert_eq!(
        from_native(NativeEvent::Keyboard(KeyboardEvent::Modifiers {
            depressed: 0,
            latched: 0,
            locked: 0,
            group: 0
        })),
        Ok(None)
    );
    assert_eq!(
        to_native(InputEvent {
            elapsed_micros: 0,
            kind: InputKind::PointerAbsolute(Point { x: 0, y: 0 })
        }),
        Err(ConversionError::UnsupportedAbsolutePointer)
    );
    assert_eq!(
        from_native(NativeEvent::Pointer(PointerEvent::AxisDiscrete120 {
            axis: 0,
            value: 120
        })),
        Ok(Some(InputEvent {
            elapsed_micros: 0,
            kind: InputKind::Scroll(ScrollDelta::Discrete {
                horizontal_120: 0,
                vertical_120: 120
            })
        }))
    );
}

#[test]
fn accepts_a_complete_wayland_environment() {
    let report = probe_environment(Some("wayland"), true, true);

    assert_eq!(report.status, EnvironmentStatus::Available);
    assert!(report.issues.is_empty());
    assert!(probe_windows().is_available());
}

#[test]
fn reports_each_missing_requirement() {
    let report = probe_environment(Some("x11"), false, false);

    assert_eq!(report.status, EnvironmentStatus::Unavailable);
    assert_eq!(
        report.issues,
        vec![
            PlatformIssue::NotWaylandSession,
            PlatformIssue::MissingWaylandDisplay,
            PlatformIssue::MissingSessionBus,
        ]
    );
    assert_eq!(
        report.issues[1].message(),
        "WAYLAND_DISPLAY is not set"
    );
}

#[test]
fn each_platform_has_its_backends() {
    assert_eq!(
        native_capture_kind(HostPlatform::LinuxWayland),
        BackendKind::LinuxWaylandInputCapture
    );
    assert_eq!(
        native_emulation_kind(HostPlatform::Windows),
        BackendKind::WindowsSendInput
    );
    assert_eq!(
        native_clipboard_kind(HostPlatform::LinuxWayland),
        BackendKind::LinuxWaylandClipboardPortal
    );
}

#[test]
fn desktops_surround_their_regions() {
    let part = |x, y, width, height| Rectangle {
        x,
        y,
        width,
        height,
    };
    let around = geometry_from_rectangles(&vec![part(-100, 0, 100, 50), part(0, -20, 80, 40)])
        .unwrap_or_else(|error| panic!("{}", error.message()));
    assert_eq!(around.origin, Point { x: -100, y: -20 });
    assert_eq!(around.size, size(180, 70));
    assert_eq!(around.monitor_count, 2);
    assert_eq!(
        geometry_from_rectangles(&Vec::new()),
        Err(GeometryError::NoRegions)
    );
    assert_eq!(
        geometry_from_rectangles(&vec![part(0, 0, 1 << 33, 1)]),
        Err(GeometryError::Width)
    );
    assert_eq!(
        geometry_from_rectangles(&vec![part(0, 0, 1, 1 << 33)]),
        Err(GeometryError::Height)
    );
    assert_eq!(
        geometry_from_rectangles(&vec![part(1 << 40, 0, 1, 1)]),
        Err(GeometryError::OriginX)
    );
    assert_eq!(
        geometry_from_rectangles(&vec![part(0, 1 << 40, 1, 1)]),
        Err(GeometryError::OriginY)
    );
}

#[test]
fn barriers_lie_on_the_outer_edges() {
    let region = Region {
        x: 0,
        y: 0,
        width: 100,
        height: 50,
    };
    assert_eq!(
        barrier_position(region, Edge::Right),
        BarrierLine {
            x1: 100,
            y1: 0,
            x2: 100,
            y2: 49
        }
    );
    let barriers = desktop_barriers(&vec![region])
        .unwrap_or_else(|| panic!("one region has four edges"));
    assert_eq!(barriers.len(), 4);
    let first = barriers[0].id;
    let taken = taken_barriers(&barriers, &vec![first])
        .unwrap_or_else(|| panic!("three barriers are left"));
    assert_eq!(taken.len(), 3);
    for edge in [Edge::Left, Edge::Right, Edge::Top, Edge::Bottom] {
        assert_eq!(capture_edge(capture_handle(edge)), Some(edge));
    }
    assert_eq!(capture_edge(99), None);
    assert_eq!(release_offset(Edge::Left), (1, 0));
    assert_eq!(
        absolute_position(
            DesktopGeometry {
                origin: Point { x: -10, y: 5 },
                size: size(10, 10),
                monitor_count: 1
            },
            Point { x: 3, y: 4 }
        ),
        (-7, 9)
    );
}

#[test]
fn captured_input_needs_an_armed_edge() {
    let mut state = CaptureState::new(vec![Edge::Left]);
    assert!(state
        .captured(Ok(Some(key(4, KeyAction::Press))))
        .action
        .is_none());
    assert_eq!(
        state.activated(Edge::Right).action,
        Some(CaptureAction::Release {
            operation: CaptureOperation::ReleaseUnarmed,
            after: AfterRelease::Nothing
        })
    );
    assert_eq!(
        state.activated(Edge::Left).action,
        Some(CaptureAction::Activate(Edge::Left))
    );
    assert_eq!(
        state.captured(Ok(Some(key(4, KeyAction::Press)))).action,
        Some(CaptureAction::PassOn(key(4, KeyAction::Press)))
    );
    let released = state.release();
    assert_eq!(released.releases.len(), 1);
    assert_eq!(
        released.action,
        Some(CaptureAction::Release {
            operation: CaptureOperation::ReleaseCapture,
            after: AfterRelease::Confirm
        })
    );
    assert_eq!(CaptureOperation::Normalize.label(), "normalize captured input");
    let _ = state.activated(Edge::Left);
    let _ = state.captured(Ok(Some(key(5, KeyAction::Press))));
    let releases = state.stop();
    assert_eq!(releases.len(), 1);
}

#[test]
fn injected_batches_are_confirmed_for_their_session_only() {
    let mut state = InjectionState::new();
    let plan = state.begin_session(3);
    assert!(plan.events.is_empty());
    assert!(state.accepts(3));
    assert!(!state.accepts(2));
    assert!(state.batch_injected(&vec![key(4, KeyAction::Press)], &vec![true]));
    assert!(!state.batch_injected(&vec![key(5, KeyAction::Press)], &vec![false]));
    assert!(state.release_all(2).is_none());
    let plan = state
        .release_all(3)
        .unwrap_or_else(|| panic!("the session is the active one"));
    assert_eq!(plan.events.len(), 1);
    assert_eq!(plan.generation, 3);
    assert!(state.stop().events.is_empty());
}

#[test]
fn devices_become_ready_together() {
    let mut devices = InjectionDevices::new();
    assert!(!devices.is_ready());
    assert_eq!(devices.news(None), None);
    let bound = devices.bind(DeviceInterfaces {
        pointer: true,
        keyboard: true,
        button: true,
        scroll: true,
        pointer_absolute: Some(geometry(1920)),
    });
    assert!(devices.is_ready());
    assert_eq!(
        devices.news(bound),
        Some(DeviceNews::Ready(geometry(1920)))
    );
    let bound = devices.bind(DeviceInterfaces {
        pointer: false,
        keyboard: false,
        button: false,
        scroll: false,
        pointer_absolute: Some(geometry(2560)),
    });
    assert_eq!(
        devices.news(bound),
        Some(DeviceNews::DisplayChanged(geometry(2560)))
    );
    assert_eq!(
        starting_geometry(Some(DeviceNews::Ready(geometry(10)))),
        Ok(geometry(10))
    );
    assert_eq!(
        starting_geometry(Some(DeviceNews::DisplayChanged(geometry(10)))),
        Err(DeviceFault::ChangedBeforeReady)
    );
    assert_eq!(
        starting_geometry(None),
        Err(DeviceFault::DiscoveryStopped)
    );
    assert_eq!(
        display_change(Some(DeviceNews::DisplayChanged(geometry(10)))),
        Some(geometry(10))
    );
}

#[test]
fn native_events_become_device_requests() {
    assert_eq!(
        device_request(NativeEvent::Pointer(PointerEvent::Motion {
            time: 0,
            dx_micropixels: 1,
            dy_micropixels: 2
        })),
        Some(DeviceRequest::Move {
            dx_micropixels: 1,
            dy_micropixels: 2
        })
    );
    assert_eq!(
        device_request(NativeEvent::Keyboard(KeyboardEvent::Key {
            time: 0,
            key: 30,
            state: 0
        })),
        Some(DeviceRequest::Key {
            key: 30,
            pressed: false
        })
    );
}
