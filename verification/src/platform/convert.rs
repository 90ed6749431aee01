//! Native input events as events of this library, and back.

use keycode::{KeyMap, KeyMapping};
use vstd::prelude::*;
use vstd::string::*;

use crate::domain::input::{
    ButtonAction, InputEvent, InputKind, KeyAction, MouseButton, PhysicalKey, ScrollDelta,
};
use crate::domain::nonzero::NonZeroU16;
use crate::encoding::push_hex_u16;
use crate::text::push_decimal;

verus! {

pub const BTN_LEFT: u32 = 0x110;

pub const BTN_RIGHT: u32 = 0x111;

pub const BTN_MIDDLE: u32 = 0x112;

pub const BTN_BACK: u32 = 0x113;

pub const BTN_FORWARD: u32 = 0x114;

pub const KEYBOARD_PAGE: u16 = 0x07;

pub const CONSUMER_PAGE: u16 = 0x0c;

pub const DESKTOP_PAGE: u16 = 0x01;

/// A pointer event of the native backends. Distances are in micropixels.
#[derive(Clone, Copy, Debug, PartialEq, Eq, Structural)]
pub enum PointerEvent {
    Motion { time: u32, dx_micropixels: i64, dy_micropixels: i64 },
    Button { time: u32, button: u32, state: u32 },
    Axis { time: u32, axis: u8, value_micropixels: i64 },
    AxisDiscrete120 { axis: u8, value: i32 },
}

/// A keyboard event of the native backends.
#[derive(Clone, Copy, Debug, PartialEq, Eq, Structural)]
pub enum KeyboardEvent {
    Key { time: u32, key: u32, state: u8 },
    Modifiers { depressed: u32, latched: u32, locked: u32, group: u32 },
}

/// An event of the native backends.
#[derive(Clone, Copy, Debug, PartialEq, Eq, Structural)]
pub enum NativeEvent {
    Pointer(PointerEvent),
    Keyboard(KeyboardEvent),
}

/// Why an event has no counterpart.
#[derive(Clone, Copy, Debug, PartialEq, Eq, Structural)]
pub enum ConversionError {
    UnknownEvdevKey(u32),
    UnknownHidKey { usage_page: u16, usage_id: u16 },
    UnknownKeyState(u8),
    UnknownButtonState(u32),
    UnknownAxis(u8),
    UnknownMouseButton(u32),
    /// A distance of the backend is not finite or has no number of micropixels.
    InvalidMotion,
    UnsupportedAbsolutePointer,
}

/// The codes of one key: its name, and its numbers as a USB usage and for evdev.
#[derive(Debug, PartialEq, Eq)]
pub struct KeyCodes {
    pub name: String,
    pub usb: u16,
    pub evdev: u16,
}

pub ghost struct KeyCodesView {
    pub name: Seq<char>,
    pub usb: u16,
    pub evdev: u16,
}

impl View for KeyCodes {
    type V = KeyCodesView;

    open spec fn view(&self) -> KeyCodesView {
        KeyCodesView { name: self.name@, usb: self.usb, evdev: self.evdev }
    }
}

pub open spec fn codes_view(codes: Option<KeyCodes>) -> Option<KeyCodesView> {
    match codes {
        Some(codes) => Some(codes@),
        None => None,
    }
}

/// The key with this usage on this USB usage page.
pub uninterp spec fn key_of_usage(page: u16, usage: u16) -> Option<KeyCodesView>;

/// The key with this evdev code other than zero.
pub uninterp spec fn key_of_evdev(code: u16) -> Option<KeyCodesView>;

/// The key has this evdev code.
pub open spec fn has_evdev(codes: Option<KeyCodes>, code: u16) -> bool {
    codes matches Some(codes) ==> codes.evdev == code
}

/// The key has this USB usage.
pub open spec fn has_usage(codes: Option<KeyCodes>, usage: u16) -> bool {
    codes matches Some(codes) ==> codes.usb == usage
}

/// Calls `keycode::KeyMap::from_usb_code`. The table has one key at most per
/// page and usage, and the key that is found has this usage.
#[verifier::external_body]
fn find_by_usage(page: u16, usage: u16) -> (codes: Option<KeyCodes>)
    ensures
        codes_view(codes) == key_of_usage(page, usage),
        has_usage(codes, usage),
{
    match KeyMap::from_usb_code(page, usage) {
        Ok(map) => Some(KeyCodes { name: map.id.to_string(), usb: map.usb, evdev: map.evdev }),
        Err(()) => None,
    }
}

/// Calls `keycode::KeyMap::from_key_mapping` for an evdev code. The key that is
/// found has this code. The table has one key at most per code other than zero;
/// zero stands for a key without a code, and which of those is found is left
/// open.
#[verifier::external_body]
fn find_by_evdev(code: u16) -> (codes: Option<KeyCodes>)
    ensures
        code != 0 ==> codes_view(codes) == key_of_evdev(code),
        has_evdev(codes, code),
{
    match KeyMap::from_key_mapping(KeyMapping::Evdev(code)) {
        Ok(map) => Some(KeyCodes { name: map.id.to_string(), usb: map.usb, evdev: map.evdev }),
        Err(()) => None,
    }
}

/// The first page that has `key` under its usage, given what stands there on
/// each.
pub open spec fn selected_page(
    key: KeyCodesView,
    on_keyboard: Option<KeyCodesView>,
    on_consumer: Option<KeyCodesView>,
    on_desktop: Option<KeyCodesView>,
) -> Option<u16> {
    if on_keyboard == Some(key) {
        Some(KEYBOARD_PAGE)
    } else if on_consumer == Some(key) {
        Some(CONSUMER_PAGE)
    } else if on_desktop == Some(key) {
        Some(DESKTOP_PAGE)
    } else {
        None
    }
}

fn is_same_key(candidate: &Option<KeyCodes>, key: &KeyCodes) -> (result: bool)
    ensures
        result == (codes_view(*candidate) == Some(key@)),
{
    match candidate {
        Some(candidate) => candidate.name == key.name && candidate.usb == key.usb
            && candidate.evdev == key.evdev,
        None => false,
    }
}

/// The first page that has `key` under its usage, given what stands there on
/// each.
pub fn select_page(
    key: &KeyCodes,
    on_keyboard: Option<KeyCodes>,
    on_consumer: Option<KeyCodes>,
    on_desktop: Option<KeyCodes>,
) -> (page: Option<u16>)
    ensures
        page == selected_page(
            key@,
            codes_view(on_keyboard),
            codes_view(on_consumer),
            codes_view(on_desktop),
        ),
{
    if is_same_key(&on_keyboard, key) {
        Some(KEYBOARD_PAGE)
    } else if is_same_key(&on_consumer, key) {
        Some(CONSUMER_PAGE)
    } else if is_same_key(&on_desktop, key) {
        Some(DESKTOP_PAGE)
    } else {
        None
    }
}

/// The physical key of an evdev code, given the key that has it.
pub open spec fn physical_key(code: u32, key: Option<KeyCodesView>) -> Result<
    PhysicalKey,
    ConversionError,
> {
    match key {
        None => Err(ConversionError::UnknownEvdevKey(code)),
        Some(key) => match selected_page(
            key,
            key_of_usage(KEYBOARD_PAGE, key.usb),
            key_of_usage(CONSUMER_PAGE, key.usb),
            key_of_usage(DESKTOP_PAGE, key.usb),
        ) {
            None => Err(ConversionError::UnknownEvdevKey(code)),
            Some(page) => Ok(PhysicalKey { usage_page: page, usage_id: key.usb }),
        },
    }
}

/// What evdev code a physical key has.
pub open spec fn evdev_code(key: PhysicalKey) -> Result<u16, ConversionError> {
    match key_of_usage(key.usage_page, key.usage_id) {
        Some(codes) => Ok(codes.evdev),
        None => Err(
            ConversionError::UnknownHidKey { usage_page: key.usage_page, usage_id: key.usage_id },
        ),
    }
}

/// `key` is what an evdev code stands for, and it has that code. The code zero
/// stands for any key without a code of its own, or for none.
pub open spec fn is_key_for(code: u32, key: Result<PhysicalKey, ConversionError>) -> bool {
    &&& match key {
        Ok(key) => code <= 0xffff && evdev_code(key) == Ok::<u16, ConversionError>(code as u16),
        Err(error) => error == ConversionError::UnknownEvdevKey(code),
    }
    &&& 0 < code <= 0xffff ==> key == physical_key(code, key_of_evdev(code as u16))
}

/// The physical key of an evdev code.
pub fn hid_key_for_evdev(code: u32) -> (result: Result<PhysicalKey, ConversionError>)
    ensures
        is_key_for(code, result),
{
    if code > 0xffff {
        return Err(ConversionError::UnknownEvdevKey(code));
    }
    let mapping = match find_by_evdev(code as u16) {
        Some(mapping) => mapping,
        None => {
            return Err(ConversionError::UnknownEvdevKey(code));
        },
    };
    let on_keyboard = find_by_usage(KEYBOARD_PAGE, mapping.usb);
    let on_consumer = find_by_usage(CONSUMER_PAGE, mapping.usb);
    let on_desktop = find_by_usage(DESKTOP_PAGE, mapping.usb);
    match select_page(&mapping, on_keyboard, on_consumer, on_desktop) {
        Some(page) => Ok(PhysicalKey::new(page, mapping.usb)),
        None => Err(ConversionError::UnknownEvdevKey(code)),
    }
}

/// The evdev code of a physical key.
pub fn evdev_for_hid(key: PhysicalKey) -> (result: Result<u16, ConversionError>)
    ensures
        result == evdev_code(key),
{
    match find_by_usage(key.usage_page, key.usage_id) {
        Some(mapping) => Ok(mapping.evdev),
        None => Err(
            ConversionError::UnknownHidKey { usage_page: key.usage_page, usage_id: key.usage_id },
        ),
    }
}

/// The button of a native code.
pub open spec fn button_of(code: u32) -> Result<MouseButton, ConversionError> {
    if code == BTN_LEFT {
        Ok(MouseButton::Primary)
    } else if code == BTN_RIGHT {
        Ok(MouseButton::Secondary)
    } else if code == BTN_MIDDLE {
        Ok(MouseButton::Middle)
    } else if code == BTN_BACK {
        Ok(MouseButton::Back)
    } else if code == BTN_FORWARD {
        Ok(MouseButton::Forward)
    } else if code <= 0xffff {
        Ok(MouseButton::Other(code as u16))
    } else {
        Err(ConversionError::UnknownMouseButton(code))
    }
}

/// The native code of a button.
pub open spec fn code_of(button: MouseButton) -> u32 {
    match button {
        MouseButton::Primary => BTN_LEFT,
        MouseButton::Secondary => BTN_RIGHT,
        MouseButton::Middle => BTN_MIDDLE,
        MouseButton::Back => BTN_BACK,
        MouseButton::Forward => BTN_FORWARD,
        MouseButton::Other(other) => other as u32,
    }
}

pub fn mouse_button_from_native(button: u32) -> (result: Result<MouseButton, ConversionError>)
    ensures
        result == button_of(button),
{
    if button == BTN_LEFT {
        Ok(MouseButton::Primary)
    } else if button == BTN_RIGHT {
        Ok(MouseButton::Secondary)
    } else if button == BTN_MIDDLE {
        Ok(MouseButton::Middle)
    } else if button == BTN_BACK {
        Ok(MouseButton::Back)
    } else if button == BTN_FORWARD {
        Ok(MouseButton::Forward)
    } else if button <= 0xffff {
        Ok(MouseButton::Other(button as u16))
    } else {
        Err(ConversionError::UnknownMouseButton(button))
    }
}

pub fn native_mouse_button(button: MouseButton) -> (code: u32)
    ensures
        code == code_of(button),
{
    match button {
        MouseButton::Primary => BTN_LEFT,
        MouseButton::Secondary => BTN_RIGHT,
        MouseButton::Middle => BTN_MIDDLE,
        MouseButton::Back => BTN_BACK,
        MouseButton::Forward => BTN_FORWARD,
        MouseButton::Other(other) => other as u32,
    }
}

/// What a key event does, by its state.
pub open spec fn key_action(state: u8) -> Result<KeyAction, ConversionError> {
    if state == 0 {
        Ok(KeyAction::Release)
    } else if state == 1 {
        Ok(KeyAction::Press)
    } else if state == 2 {
        Ok(KeyAction::Repeat { count: NonZeroU16::one() })
    } else {
        Err(ConversionError::UnknownKeyState(state))
    }
}

/// What a button event does, by its state.
pub open spec fn button_action(state: u32) -> Result<ButtonAction, ConversionError> {
    if state == 0 {
        Ok(ButtonAction::Release)
    } else if state == 1 {
        Ok(ButtonAction::Press)
    } else {
        Err(ConversionError::UnknownButtonState(state))
    }
}

/// What a native event means, given the physical key of a key event.
pub open spec fn meaning(event: NativeEvent, key: Result<PhysicalKey, ConversionError>) -> Result<
    Option<InputEvent>,
    ConversionError,
> {
    match event {
        NativeEvent::Keyboard(KeyboardEvent::Key { time, key: code, state }) => match key_action(
            state,
        ) {
            Err(error) => Err(error),
            Ok(action) => match key {
                Err(error) => Err(error),
                Ok(key) => Ok(
                    Some(
                        InputEvent {
                            elapsed_micros: time as u64,
                            kind: InputKind::Key { key, action },
                        },
                    ),
                ),
            },
        },
        NativeEvent::Keyboard(
            KeyboardEvent::Modifiers { depressed, latched, locked, group },
        ) => Ok(None),
        NativeEvent::Pointer(PointerEvent::Motion { time, dx_micropixels, dy_micropixels }) => Ok(
            Some(
                InputEvent {
                    elapsed_micros: time as u64,
                    kind: InputKind::PointerRelative { dx_micropixels, dy_micropixels },
                },
            ),
        ),
        NativeEvent::Pointer(PointerEvent::Button { time, button, state }) => match button_action(
            state,
        ) {
            Err(error) => Err(error),
            Ok(action) => match button_of(button) {
                Err(error) => Err(error),
                Ok(button) => Ok(
                    Some(
                        InputEvent {
                            elapsed_micros: time as u64,
                            kind: InputKind::PointerButton { button, action },
                        },
                    ),
                ),
            },
        },
        NativeEvent::Pointer(PointerEvent::Axis { time, axis, value_micropixels }) => if axis
            == 0 {
            Ok(
                Some(
                    InputEvent {
                        elapsed_micros: time as u64,
                        kind: InputKind::Scroll(
                            ScrollDelta::Continuous {
                                horizontal_micropixels: 0,
                                vertical_micropixels: value_micropixels,
                            },
                        ),
                    },
                ),
            )
        } else if axis == 1 {
            Ok(
                Some(
                    InputEvent {
                        elapsed_micros: time as u64,
                        kind: InputKind::Scroll(
                            ScrollDelta::Continuous {
                                horizontal_micropixels: value_micropixels,
                                vertical_micropixels: 0,
                            },
                        ),
                    },
                ),
            )
        } else {
            Err(ConversionError::UnknownAxis(axis))
        },
        NativeEvent::Pointer(PointerEvent::AxisDiscrete120 { axis, value }) => if axis == 0 {
            Ok(
                Some(
                    InputEvent {
                        elapsed_micros: 0,
                        kind: InputKind::Scroll(
                            ScrollDelta::Discrete { horizontal_120: 0, vertical_120: value },
                        ),
                    },
                ),
            )
        } else if axis == 1 {
            Ok(
                Some(
                    InputEvent {
                        elapsed_micros: 0,
                        kind: InputKind::Scroll(
                            ScrollDelta::Discrete { horizontal_120: value, vertical_120: 0 },
                        ),
                    },
                ),
            )
        } else {
            Err(ConversionError::UnknownAxis(axis))
        },
    }
}

/// What a native event means, given the physical key of a key event.
pub fn interpret(event: NativeEvent, key: Result<PhysicalKey, ConversionError>) -> (result: Result<
    Option<InputEvent>,
    ConversionError,
>)
    ensures
        result == meaning(event, key),
{
    let (elapsed_micros, kind): (u64, InputKind) = match event {
        NativeEvent::Keyboard(KeyboardEvent::Key { time, key: _, state }) => {
            let action = match state {
                0 => KeyAction::Release,
                1 => KeyAction::Press,
                2 => KeyAction::Repeat { count: NonZeroU16::min_value() },
                other => {
                    return Err(ConversionError::UnknownKeyState(other));
                },
            };
            match key {
                Ok(key) => (time as u64, InputKind::Key { key, action }),
                Err(error) => {
                    return Err(error);
                },
            }
        },
        NativeEvent::Keyboard(KeyboardEvent::Modifiers { .. }) => {
            return Ok(None);
        },
        NativeEvent::Pointer(PointerEvent::Motion { time, dx_micropixels, dy_micropixels }) => {
            (time as u64, InputKind::PointerRelative { dx_micropixels, dy_micropixels })
        },
        NativeEvent::Pointer(PointerEvent::Button { time, button, state }) => {
            let action = match state {
                0 => ButtonAction::Release,
                1 => ButtonAction::Press,
                other => {
                    return Err(ConversionError::UnknownButtonState(other));
                },
            };
            match mouse_button_from_native(button) {
                Ok(button) => (time as u64, InputKind::PointerButton { button, action }),
                Err(error) => {
                    return Err(error);
                },
            }
        },
        NativeEvent::Pointer(PointerEvent::Axis { time, axis, value_micropixels }) => {
            let delta = match axis {
                0 => ScrollDelta::Continuous {
                    horizontal_micropixels: 0,
                    vertical_micropixels: value_micropixels,
                },
                1 => ScrollDelta::Continuous {
                    horizontal_micropixels: value_micropixels,
                    vertical_micropixels: 0,
                },
                other => {
                    return Err(ConversionError::UnknownAxis(other));
                },
            };
            (time as u64, InputKind::Scroll(delta))
        },
        NativeEvent::Pointer(PointerEvent::AxisDiscrete120 { axis, value }) => {
            let delta = match axis {
                0 => ScrollDelta::Discrete { horizontal_120: 0, vertical_120: value },
                1 => ScrollDelta::Discrete { horizontal_120: value, vertical_120: 0 },
                other => {
                    return Err(ConversionError::UnknownAxis(other));
                },
            };
            (0, InputKind::Scroll(delta))
        },
    };
    Ok(Some(InputEvent { elapsed_micros, kind }))
}

/// The event of this library that a native event stands for; `None` where it
/// stands for none.
pub fn from_native(event: NativeEvent) -> (result: Result<Option<InputEvent>, ConversionError>)
    ensures
        match event {
            NativeEvent::Keyboard(KeyboardEvent::Key { time, key: code, state }) => {
                exists|key: Result<PhysicalKey, ConversionError>| #[trigger]
                    is_key_for(code, key) && result == meaning(event, key)
            },
            _ => forall|key: Result<PhysicalKey, ConversionError>|
                result == #[trigger] meaning(event, key),
        },
{
    let key = match event {
        NativeEvent::Keyboard(KeyboardEvent::Key { time: _, key: code, state: _ }) => {
            hid_key_for_evdev(code)
        },
        _ => Err(ConversionError::UnknownEvdevKey(0)),
    };
    interpret(event, key)
}

/// The time of a native event, as far as it goes.
pub open spec fn native_time(elapsed_micros: u64) -> u32 {
    if elapsed_micros <= u32::MAX {
        elapsed_micros as u32
    } else {
        u32::MAX
    }
}

/// The native event for an event of this library, given the evdev code of a key.
pub open spec fn expression(event: InputEvent, evdev: Result<u16, ConversionError>) -> Result<
    NativeEvent,
    ConversionError,
> {
    let time = native_time(event.elapsed_micros);
    match event.kind {
        InputKind::Key { key, action } => match evdev {
            Err(error) => Err(error),
            Ok(code) => Ok(
                NativeEvent::Keyboard(
                    KeyboardEvent::Key {
                        time,
                        key: code as u32,
                        state: match action {
                            KeyAction::Press => 1,
                            KeyAction::Repeat { count } => 2,
                            KeyAction::Release => 0,
                        },
                    },
                ),
            ),
        },
        InputKind::PointerButton { button, action } => Ok(
            NativeEvent::Pointer(
                PointerEvent::Button {
                    time,
                    button: code_of(button),
                    state: match action {
                        ButtonAction::Press => 1,
                        ButtonAction::Release => 0,
                    },
                },
            ),
        ),
        InputKind::PointerRelative { dx_micropixels, dy_micropixels } => Ok(
            NativeEvent::Pointer(PointerEvent::Motion { time, dx_micropixels, dy_micropixels }),
        ),
        InputKind::PointerAbsolute(_) => Err(ConversionError::UnsupportedAbsolutePointer),
        InputKind::Scroll(ScrollDelta::Discrete { horizontal_120, vertical_120 }) => Ok(
            NativeEvent::Pointer(
                if vertical_120 != 0 {
                    PointerEvent::AxisDiscrete120 { axis: 0, value: vertical_120 }
                } else {
                    PointerEvent::AxisDiscrete120 { axis: 1, value: horizontal_120 }
                },
            ),
        ),
        InputKind::Scroll(
            ScrollDelta::Continuous { horizontal_micropixels, vertical_micropixels },
        ) => Ok(
            NativeEvent::Pointer(
                if vertical_micropixels != 0 {
                    PointerEvent::Axis { time, axis: 0, value_micropixels: vertical_micropixels }
                } else {
                    PointerEvent::Axis { time, axis: 1, value_micropixels: horizontal_micropixels }
                },
            ),
        ),
    }
}

/// The native event for an event of this library.
pub fn to_native(event: InputEvent) -> (result: Result<NativeEvent, ConversionError>)
    ensures
        match event.kind {
            InputKind::Key { key, action } => result == expression(event, evdev_code(key)),
            _ => forall|evdev: Result<u16, ConversionError>|
                result == #[trigger] expression(event, evdev),
        },
{
    let time: u32 = if event.elapsed_micros <= u32::MAX as u64 {
        event.elapsed_micros as u32
    } else {
        u32::MAX
    };
    match event.kind {
        InputKind::Key { key, action } => {
            let state: u8 = match action {
                KeyAction::Press => 1,
                KeyAction::Repeat { .. } => 2,
                KeyAction::Release => 0,
            };
            match evdev_for_hid(key) {
                Ok(code) => Ok(
                    NativeEvent::Keyboard(KeyboardEvent::Key { time, key: code as u32, state }),
                ),
                Err(error) => Err(error),
            }
        },
        InputKind::PointerButton { button, action } => {
            let state: u32 = match action {
                ButtonAction::Press => 1,
                ButtonAction::Release => 0,
            };
            Ok(
                NativeEvent::Pointer(
                    PointerEvent::Button { time, button: native_mouse_button(button), state },
                ),
            )
        },
        InputKind::PointerRelative { dx_micropixels, dy_micropixels } => Ok(
            NativeEvent::Pointer(PointerEvent::Motion { time, dx_micropixels, dy_micropixels }),
        ),
        InputKind::PointerAbsolute(_) => Err(ConversionError::UnsupportedAbsolutePointer),
        InputKind::Scroll(ScrollDelta::Discrete { horizontal_120, vertical_120 }) => {
            if vertical_120 != 0 {
                Ok(
                    NativeEvent::Pointer(
                        PointerEvent::AxisDiscrete120 { axis: 0, value: vertical_120 },
                    ),
                )
            } else {
                Ok(
                    NativeEvent::Pointer(
                        PointerEvent::AxisDiscrete120 { axis: 1, value: horizontal_120 },
                    ),
                )
            }
        },
        InputKind::Scroll(
            ScrollDelta::Continuous { horizontal_micropixels, vertical_micropixels },
        ) => {
            if vertical_micropixels != 0 {
                Ok(
                    NativeEvent::Pointer(
                        PointerEvent::Axis {
                            time,
                            axis: 0,
                            value_micropixels: vertical_micropixels,
                        },
                    ),
                )
            } else {
                Ok(
                    NativeEvent::Pointer(
                        PointerEvent::Axis {
                            time,
                            axis: 1,
                            value_micropixels: horizontal_micropixels,
                        },
                    ),
                )
            }
        },
    }
}

/// The event is a vertical scroll by nothing.
pub open spec fn is_empty_vertical_scroll(event: NativeEvent) -> bool {
    match event {
        NativeEvent::Pointer(PointerEvent::Axis { time, axis, value_micropixels }) => axis == 0
            && value_micropixels == 0,
        NativeEvent::Pointer(PointerEvent::AxisDiscrete120 { axis, value }) => axis == 0 && value
            == 0,
        _ => false,
    }
}

/// A native event comes back as it was: keys go through their physical key, and
/// everything but a vertical scroll by nothing is expressed the way it came.
pub proof fn law_native_events_come_back(
    event: NativeEvent,
    key: Result<PhysicalKey, ConversionError>,
    input: InputEvent,
)
    requires
        meaning(event, key) == Ok::<Option<InputEvent>, ConversionError>(Some(input)),
        !is_empty_vertical_scroll(event),
        (event matches NativeEvent::Keyboard(KeyboardEvent::Key { time, key: code, state })
            && is_key_for(code, key)) || !(event is Keyboard),
    ensures
        expression(
            input,
            match input.kind {
                InputKind::Key { key, action } => evdev_code(key),
                _ => Err(ConversionError::UnsupportedAbsolutePointer),
            },
        ) == Ok::<NativeEvent, ConversionError>(event),
{
}

/// A button comes back from its native code, unless it is one of the named
/// buttons under another name.
pub proof fn law_buttons_come_back(button: MouseButton)
    requires
        button matches MouseButton::Other(code) ==> !(BTN_LEFT <= code <= BTN_FORWARD),
    ensures
        button_of(code_of(button)) == Ok::<MouseButton, ConversionError>(button),
{
}

impl ConversionError {
    /// The error in words.
    pub open spec fn text(self) -> Seq<char> {
        match self {
            ConversionError::UnknownEvdevKey(code) => {
                "unknown evdev key code "@ + crate::text::decimal(code as nat)
            },
            ConversionError::UnknownHidKey { usage_page, usage_id } => {
                "unknown HID key usage 0x"@ + crate::encoding::hex_u16(usage_page) + ":0x"@
                    + crate::encoding::hex_u16(usage_id)
            },
            ConversionError::UnknownKeyState(state) => {
                "unknown key state "@ + crate::text::decimal(state as nat)
            },
            ConversionError::UnknownButtonState(state) => {
                "unknown pointer button state "@ + crate::text::decimal(state as nat)
            },
            ConversionError::UnknownAxis(axis) => {
                "unknown pointer axis "@ + crate::text::decimal(axis as nat)
            },
            ConversionError::UnknownMouseButton(button) => {
                "unknown mouse button "@ + crate::text::decimal(button as nat)
            },
            ConversionError::InvalidMotion => {
                "motion value is not finite or representable"@
            },
            ConversionError::UnsupportedAbsolutePointer => {
                "absolute pointer injection is not supported by the native backend"@
            },
        }
    }

    /// The error in words.
    pub fn message(&self) -> (message: String)
        ensures
            message@ == self.text(),
    {
        let mut message = String::new();
        match self {
            ConversionError::UnknownEvdevKey(code) => {
                message.append("unknown evdev key code ");
                push_decimal(&mut message, *code as u64);
            },
            ConversionError::UnknownHidKey { usage_page, usage_id } => {
                message.append("unknown HID key usage 0x");
                push_hex_u16(&mut message, *usage_page);
                message.append(":0x");
                push_hex_u16(&mut message, *usage_id);
            },
            ConversionError::UnknownKeyState(state) => {
                message.append("unknown key state ");
                push_decimal(&mut message, *state as u64);
            },
            ConversionError::UnknownButtonState(state) => {
                message.append("unknown pointer button state ");
                push_decimal(&mut message, *state as u64);
            },
            ConversionError::UnknownAxis(axis) => {
                message.append("unknown pointer axis ");
                push_decimal(&mut message, *axis as u64);
            },
            ConversionError::UnknownMouseButton(button) => {
                message.append("unknown mouse button ");
                push_decimal(&mut message, *button as u64);
            },
            ConversionError::InvalidMotion => {
                message.append("motion value is not finite or representable");
            },
            ConversionError::UnsupportedAbsolutePointer => {
                message.append(
                    "absolute pointer injection is not supported by the native backend",
                );
            },
        }
        assert(message@ =~= self.text());
        message
    }
}

} // verus!
