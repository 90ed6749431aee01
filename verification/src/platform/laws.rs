//! What native input means, and what becomes of it.

use vstd::prelude::*;

use crate::domain::input::{
    ButtonAction, InputEvent, InputKind, KeyAction, MouseButton, PhysicalKey, ScrollDelta,
};
use crate::platform::capture::{AfterRelease, CaptureAction, CaptureInput, CaptureView};
use crate::platform::convert::{ConversionError, KeyboardEvent, NativeEvent, PointerEvent};
use crate::platform::injection::{DeviceInterfaces, DeviceRequest, InjectionDevices};
use crate::platform::state::HeldView;

verus! {

/// An event keeps its time and what it is about: motion its distances, a button
/// and a key whether they go down or up, and a scroll the axis that it is on, of
/// which 0 is the vertical and 1 the horizontal one.
pub proof fn law_native_events_keep_their_sense(
    event: NativeEvent,
    key: Result<PhysicalKey, ConversionError>,
    input: InputEvent,
)
    requires
        crate::platform::convert::meaning(event, key) == Ok::<
            Option<InputEvent>,
            ConversionError,
        >(Some(input)),
    ensures
        match event {
            NativeEvent::Pointer(PointerEvent::Motion { time, dx_micropixels, dy_micropixels }) => {
                &&& input.elapsed_micros == time
                &&& input.kind == (InputKind::PointerRelative { dx_micropixels, dy_micropixels })
            },
            NativeEvent::Pointer(PointerEvent::Button { time, button, state }) => {
                &&& input.elapsed_micros == time
                &&& input.kind matches InputKind::PointerButton { button: named, action } && {
                    &&& action is Press <==> state == 1
                    &&& action is Release <==> state == 0
                    &&& named is Primary <==> button == 0x110
                    &&& named is Secondary <==> button == 0x111
                    &&& named is Middle <==> button == 0x112
                    &&& named is Back <==> button == 0x113
                    &&& named is Forward <==> button == 0x114
                    &&& named matches MouseButton::Other(code) ==> code == button
                }
            },
            NativeEvent::Pointer(PointerEvent::Axis { time, axis, value_micropixels }) => {
                &&& input.elapsed_micros == time
                &&& input.kind matches InputKind::Scroll(
                    ScrollDelta::Continuous { horizontal_micropixels, vertical_micropixels },
                ) && {
                    &&& axis == 0 || axis == 1
                    &&& axis == 0 ==> vertical_micropixels == value_micropixels
                        && horizontal_micropixels == 0
                    &&& axis == 1 ==> horizontal_micropixels == value_micropixels
                        && vertical_micropixels == 0
                }
            },
            NativeEvent::Pointer(PointerEvent::AxisDiscrete120 { axis, value }) => {
                &&& input.elapsed_micros == 0
                &&& input.kind matches InputKind::Scroll(
                    ScrollDelta::Discrete { horizontal_120, vertical_120 },
                ) && {
                    &&& axis == 0 || axis == 1
                    &&& axis == 0 ==> vertical_120 == value && horizontal_120 == 0
                    &&& axis == 1 ==> horizontal_120 == value && vertical_120 == 0
                }
            },
            NativeEvent::Keyboard(KeyboardEvent::Key { time, key: code, state }) => {
                &&& input.elapsed_micros == time
                &&& input.kind matches InputKind::Key { key: physical, action } && {
                    &&& key == Ok::<PhysicalKey, ConversionError>(physical)
                    &&& action is Press <==> state == 1
                    &&& action is Release <==> state == 0
                    &&& action is Repeat <==> state == 2
                }
            },
            NativeEvent::Keyboard(KeyboardEvent::Modifiers { .. }) => false,
        },
{
}

/// Native events are refused exactly where a state, an axis or a button is none
/// that is known, or a key has no physical key; only changes of modifiers stand
/// for no input.
pub proof fn law_only_unknown_native_events_are_refused(
    event: NativeEvent,
    key: Result<PhysicalKey, ConversionError>,
)
    ensures
        ({
            let result = crate::platform::convert::meaning(event, key);
            match event {
                NativeEvent::Pointer(PointerEvent::Motion { .. }) => result matches Ok(Some(_)),
                NativeEvent::Pointer(PointerEvent::Button { time, button, state }) => {
                    &&& state > 1 ==> result == Err::<Option<InputEvent>, ConversionError>(
                        ConversionError::UnknownButtonState(state),
                    )
                    &&& state <= 1 && button > 0xffff ==> result == Err::<
                        Option<InputEvent>,
                        ConversionError,
                    >(ConversionError::UnknownMouseButton(button))
                    &&& state <= 1 && button <= 0xffff ==> result matches Ok(Some(_))
                },
                NativeEvent::Pointer(PointerEvent::Axis { time, axis, value_micropixels }) => {
                    &&& axis > 1 ==> result == Err::<Option<InputEvent>, ConversionError>(
                        ConversionError::UnknownAxis(axis),
                    )
                    &&& axis <= 1 ==> result matches Ok(Some(_))
                },
                NativeEvent::Pointer(PointerEvent::AxisDiscrete120 { axis, value }) => {
                    &&& axis > 1 ==> result == Err::<Option<InputEvent>, ConversionError>(
                        ConversionError::UnknownAxis(axis),
                    )
                    &&& axis <= 1 ==> result matches Ok(Some(_))
                },
                NativeEvent::Keyboard(KeyboardEvent::Key { time, key: code, state }) => {
                    &&& state > 2 ==> result == Err::<Option<InputEvent>, ConversionError>(
                        ConversionError::UnknownKeyState(state),
                    )
                    &&& state <= 2 ==> match key {
                        Ok(_) => result matches Ok(Some(_)),
                        Err(error) => result == Err::<Option<InputEvent>, ConversionError>(error),
                    }
                },
                NativeEvent::Keyboard(KeyboardEvent::Modifiers { .. }) => result matches Ok(None),
            }
        }),
{
}

/// A key that repeats counts once.
pub proof fn law_repeats_count_once(time: u32, code: u32, key: PhysicalKey)
    ensures
        crate::platform::convert::meaning(
            NativeEvent::Keyboard(KeyboardEvent::Key { time, key: code, state: 2 }),
            Ok(key),
        ) matches Ok(Some(input)) && (input.kind matches InputKind::Key { key: _, action }
            && action matches KeyAction::Repeat { count } && count@ == 1),
{
    crate::domain::nonzero::NonZeroU16::lemma_one();
}

/// An event of this library keeps what it is about when it becomes a native one.
/// A scroll goes to the axis on which it has a distance, the vertical one first.
pub proof fn law_inputs_keep_their_sense(
    event: InputEvent,
    evdev: Result<u16, ConversionError>,
    native: NativeEvent,
)
    requires
        crate::platform::convert::expression(event, evdev) == Ok::<NativeEvent, ConversionError>(
            native,
        ),
    ensures
        native matches NativeEvent::Pointer(PointerEvent::Motion { time, .. }) ==> time
            == event.elapsed_micros || (event.elapsed_micros > u32::MAX && time == u32::MAX),
        native matches NativeEvent::Pointer(PointerEvent::Button { time, .. }) ==> time
            == event.elapsed_micros || (event.elapsed_micros > u32::MAX && time == u32::MAX),
        native matches NativeEvent::Pointer(PointerEvent::Axis { time, .. }) ==> time
            == event.elapsed_micros || (event.elapsed_micros > u32::MAX && time == u32::MAX),
        native matches NativeEvent::Keyboard(KeyboardEvent::Key { time, .. }) ==> time
            == event.elapsed_micros || (event.elapsed_micros > u32::MAX && time == u32::MAX),
        match event.kind {
            InputKind::Key { key, action } => native matches NativeEvent::Keyboard(
                KeyboardEvent::Key { time, key: code, state },
            ) && {
                &&& evdev matches Ok(wanted) && code == wanted
                &&& state == 1 <==> action is Press
                &&& state == 2 <==> action is Repeat
                &&& state == 0 <==> action is Release
            },
            InputKind::PointerButton { button, action } => native matches NativeEvent::Pointer(
                PointerEvent::Button { time, button: code, state },
            ) && {
                &&& state == 1 <==> action is Press
                &&& state == 0 <==> action is Release
                &&& button is Primary ==> code == 0x110
                &&& button is Secondary ==> code == 0x111
                &&& button is Middle ==> code == 0x112
                &&& button is Back ==> code == 0x113
                &&& button is Forward ==> code == 0x114
                &&& button matches MouseButton::Other(other) ==> code == other
            },
            InputKind::PointerRelative { dx_micropixels, dy_micropixels } => {
                native matches NativeEvent::Pointer(
                    PointerEvent::Motion { time, dx_micropixels: x, dy_micropixels: y },
                ) && x == dx_micropixels && y == dy_micropixels
            },
            InputKind::PointerAbsolute(_) => false,
            InputKind::Scroll(ScrollDelta::Discrete { horizontal_120, vertical_120 }) => {
                native matches NativeEvent::Pointer(
                    PointerEvent::AxisDiscrete120 { axis, value },
                ) && {
                    &&& vertical_120 != 0 ==> axis == 0 && value == vertical_120
                    &&& vertical_120 == 0 ==> axis == 1 && value == horizontal_120
                }
            },
            InputKind::Scroll(
                ScrollDelta::Continuous { horizontal_micropixels, vertical_micropixels },
            ) => native matches NativeEvent::Pointer(
                PointerEvent::Axis { time, axis, value_micropixels },
            ) && {
                &&& vertical_micropixels != 0 ==> axis == 0 && value_micropixels
                    == vertical_micropixels
                &&& vertical_micropixels == 0 ==> axis == 1 && value_micropixels
                    == horizontal_micropixels
            },
        },
{
}

/// Only absolute positions, and keys without a code, have no native event.
pub proof fn law_only_absolute_positions_and_unknown_keys_are_refused(
    event: InputEvent,
    evdev: Result<u16, ConversionError>,
)
    ensures
        match crate::platform::convert::expression(event, evdev) {
            Ok(_) => !(event.kind is PointerAbsolute) && (event.kind is Key ==> evdev is Ok),
            Err(error) => (event.kind is PointerAbsolute && error
                == ConversionError::UnsupportedAbsolutePointer) || (event.kind is Key && evdev
                == Err::<u16, ConversionError>(error)),
        },
{
}

/// A device presses a key or a button exactly where the event of this library
/// does, moves by the distances of the event, and scrolls along the axis on which
/// the event has a distance.
pub proof fn law_devices_do_what_was_captured(
    event: InputEvent,
    evdev: Result<u16, ConversionError>,
    native: NativeEvent,
)
    requires
        crate::platform::convert::expression(event, evdev) == Ok::<NativeEvent, ConversionError>(
            native,
        ),
    ensures
        match event.kind {
            InputKind::Key { key, action } => {
                crate::platform::injection::request_of(native) matches Some(
                    DeviceRequest::Key { key: code, pressed },
                ) && pressed == !(action is Release) && evdev == Ok::<u16, ConversionError>(
                    code as u16,
                ) && code <= 0xffff
            },
            InputKind::PointerButton { button, action } => {
                crate::platform::injection::request_of(native) matches Some(
                    DeviceRequest::Button { button: code, pressed },
                ) && {
                    &&& pressed == (action is Press)
                    &&& button is Primary ==> code == 0x110
                    &&& button is Secondary ==> code == 0x111
                    &&& button is Middle ==> code == 0x112
                    &&& button is Back ==> code == 0x113
                    &&& button is Forward ==> code == 0x114
                    &&& button matches MouseButton::Other(other) ==> code == other
                }
            },
            InputKind::PointerRelative { dx_micropixels, dy_micropixels } => {
                crate::platform::injection::request_of(native) == Some(
                    DeviceRequest::Move { dx_micropixels, dy_micropixels },
                )
            },
            InputKind::PointerAbsolute(_) => false,
            InputKind::Scroll(ScrollDelta::Discrete { horizontal_120, vertical_120 }) => {
                crate::platform::injection::request_of(native) matches Some(
                    DeviceRequest::ScrollSteps { x_120, y_120 },
                ) && y_120 == vertical_120 && (vertical_120 == 0 ==> x_120 == horizontal_120) && (
                vertical_120 != 0 ==> x_120 == 0)
            },
            InputKind::Scroll(
                ScrollDelta::Continuous { horizontal_micropixels, vertical_micropixels },
            ) => crate::platform::injection::request_of(native) matches Some(
                DeviceRequest::Scroll { x_micropixels, y_micropixels },
            ) && y_micropixels == vertical_micropixels && (vertical_micropixels == 0
                ==> x_micropixels == horizontal_micropixels) && (vertical_micropixels != 0
                ==> x_micropixels == 0),
        },
{
}

/// Native input that is captured and injected elsewhere does there what it did
/// here: what went down goes down, what went up goes up, motion and scrolls keep
/// their direction.
pub proof fn law_captured_input_is_repeated_by_devices(
    event: NativeEvent,
    key: Result<PhysicalKey, ConversionError>,
    input: InputEvent,
    evdev: Result<u16, ConversionError>,
    native: NativeEvent,
)
    requires
        crate::platform::convert::meaning(event, key) == Ok::<
            Option<InputEvent>,
            ConversionError,
        >(Some(input)),
        crate::platform::convert::expression(input, evdev) == Ok::<NativeEvent, ConversionError>(
            native,
        ),
    ensures
        match event {
            NativeEvent::Pointer(PointerEvent::Motion { time, dx_micropixels, dy_micropixels }) => {
                crate::platform::injection::request_of(native) == Some(
                    DeviceRequest::Move { dx_micropixels, dy_micropixels },
                )
            },
            NativeEvent::Pointer(PointerEvent::Button { time, button, state }) => {
                crate::platform::injection::request_of(native) == Some(
                    DeviceRequest::Button { button, pressed: state == 1 },
                )
            },
            NativeEvent::Pointer(PointerEvent::Axis { time, axis, value_micropixels }) => {
                crate::platform::injection::request_of(native) == Some(
                    DeviceRequest::Scroll {
                        x_micropixels: if axis == 1 {
                            value_micropixels
                        } else {
                            0
                        },
                        y_micropixels: if axis == 0 {
                            value_micropixels
                        } else {
                            0
                        },
                    },
                )
            },
            NativeEvent::Pointer(PointerEvent::AxisDiscrete120 { axis, value }) => {
                crate::platform::injection::request_of(native) == Some(
                    DeviceRequest::ScrollSteps {
                        x_120: if axis == 1 {
                            value
                        } else {
                            0
                        },
                        y_120: if axis == 0 {
                            value
                        } else {
                            0
                        },
                    },
                )
            },
            NativeEvent::Keyboard(KeyboardEvent::Key { time, key: code, state }) => {
                crate::platform::injection::request_of(native) matches Some(
                    DeviceRequest::Key { key: repeated, pressed },
                ) && pressed == (state != 0)
            },
            NativeEvent::Keyboard(KeyboardEvent::Modifiers { .. }) => true,
        },
{
}

/// What the devices are asked to do with native events as they come: a state of
/// zero lets go and every other one presses, axis 0 scrolls vertically and every
/// other one horizontally, and changes of modifiers ask for nothing.
pub proof fn law_native_events_ask_devices(event: NativeEvent)
    ensures
        match event {
            NativeEvent::Pointer(PointerEvent::Motion { time, dx_micropixels, dy_micropixels }) => {
                crate::platform::injection::request_of(event) == Some(
                    DeviceRequest::Move { dx_micropixels, dy_micropixels },
                )
            },
            NativeEvent::Pointer(PointerEvent::Button { time, button, state }) => {
                crate::platform::injection::request_of(event) matches Some(
                    DeviceRequest::Button { button: code, pressed },
                ) && code == button && (pressed <==> state > 0)
            },
            NativeEvent::Pointer(PointerEvent::Axis { time, axis, value_micropixels }) => {
                crate::platform::injection::request_of(event) matches Some(
                    DeviceRequest::Scroll { x_micropixels, y_micropixels },
                ) && {
                    &&& axis == 0 ==> y_micropixels == value_micropixels && x_micropixels == 0
                    &&& axis > 0 ==> x_micropixels == value_micropixels && y_micropixels == 0
                }
            },
            NativeEvent::Pointer(PointerEvent::AxisDiscrete120 { axis, value }) => {
                crate::platform::injection::request_of(event) matches Some(
                    DeviceRequest::ScrollSteps { x_120, y_120 },
                ) && {
                    &&& axis == 0 ==> y_120 == value && x_120 == 0
                    &&& axis > 0 ==> x_120 == value && y_120 == 0
                }
            },
            NativeEvent::Keyboard(KeyboardEvent::Key { time, key, state }) => {
                crate::platform::injection::request_of(event) matches Some(
                    DeviceRequest::Key { key: code, pressed },
                ) && code == key && (pressed <==> state > 0)
            },
            NativeEvent::Keyboard(KeyboardEvent::Modifiers { .. }) => {
                crate::platform::injection::request_of(event) is None
            },
        },
{
}

/// A physical key is looked for on the page of keyboards, then on that of consumer
/// controls, then on that of desktop controls, and is one that has the code.
pub proof fn law_physical_keys_are_found_in_page_order(
    code: u32,
    found: crate::platform::convert::KeyCodesView,
    key: PhysicalKey,
)
    requires
        crate::platform::convert::physical_key(code, Some(found)) == Ok::<
            PhysicalKey,
            ConversionError,
        >(key),
    ensures
        key.usage_id == found.usb,
        crate::platform::convert::key_of_usage(key.usage_page, key.usage_id) == Some(found),
        key.usage_page == 0x07 || key.usage_page == 0x0c || key.usage_page == 0x01,
        key.usage_page != 0x07 ==> crate::platform::convert::key_of_usage(0x07, found.usb) != Some(
            found,
        ),
        key.usage_page == 0x01 ==> crate::platform::convert::key_of_usage(0x0c, found.usb) != Some(
            found,
        ),
{
}

/// After an event a key is held down if the event presses or repeats it, or if it
/// was held before and the event does not release it; and likewise for buttons.
pub proof fn law_held_input_follows_the_events(held: HeldView, event: InputEvent)
    ensures
        forall|key: PhysicalKey|
            #![trigger crate::platform::state::held_after(held, event).keys.contains(key)]
            crate::platform::state::held_after(held, event).keys.contains(key) <==> (
            (event.kind matches InputKind::Key { key: moved, action } && moved == key && !(
            action is Release)) || (held.keys.contains(key) && !(event.kind matches InputKind::Key {
                key: moved,
                action,
            } && moved == key && action is Release))),
        forall|button: MouseButton|
            #![trigger crate::platform::state::held_after(held, event).buttons.contains(button)]
            crate::platform::state::held_after(held, event).buttons.contains(button) <==> (
            (event.kind matches InputKind::PointerButton { button: moved, action } && moved
                == button && action is Press) || (held.buttons.contains(button) && !(
            event.kind matches InputKind::PointerButton { button: moved, action } && moved == button
                && action is Release))),
{
}

/// The event at `index` presses or repeats the key.
pub open spec fn presses_key(events: Seq<InputEvent>, key: PhysicalKey, index: int) -> bool {
    0 <= index < events.len() && (events[index].kind matches InputKind::Key { key: moved, action }
        && moved == key && !(action is Release))
}

/// The event at `index` releases the key.
pub open spec fn releases_key(events: Seq<InputEvent>, key: PhysicalKey, index: int) -> bool {
    0 <= index < events.len() && (events[index].kind matches InputKind::Key { key: moved, action }
        && moved == key && action is Release)
}

/// Of a series of events that begins with nothing held, exactly those keys are
/// held down at the end that were pressed and not released since.
pub proof fn law_keys_are_held_from_press_to_release(events: Seq<InputEvent>, key: PhysicalKey)
    ensures
        crate::platform::state::held_after_all(
            HeldView { keys: Set::empty(), buttons: Set::empty() },
            events,
        ).keys.contains(key) <==> exists|pressed: int| #[trigger]
            presses_key(events, key, pressed) && forall|later: int|
                pressed < later ==> !#[trigger] releases_key(events, key, later),
    decreases events.len(),
{
    let start = HeldView { keys: Set::empty(), buttons: Set::empty() };
    if events.len() > 0 {
        let shorter = events.drop_last();
        let last = events.len() - 1;
        let event = events.last();
        law_keys_are_held_from_press_to_release(shorter, key);
        law_held_input_follows_the_events(
            crate::platform::state::held_after_all(start, shorter),
            event,
        );
        assert forall|i: int| i < last implies #[trigger] presses_key(events, key, i)
            == presses_key(shorter, key, i) by {}
        assert forall|i: int| i < last implies #[trigger] releases_key(events, key, i)
            == releases_key(shorter, key, i) by {}
        if crate::platform::state::held_after_all(start, events).keys.contains(key) {
            if presses_key(events, key, last) {
                assert(forall|later: int| last < later ==> !#[trigger] releases_key(
                    events,
                    key,
                    later,
                ));
            } else {
                let pressed = choose|pressed: int| #[trigger]
                    presses_key(shorter, key, pressed) && forall|later: int|
                        pressed < later ==> !#[trigger] releases_key(shorter, key, later);
                assert(presses_key(events, key, pressed));
                assert forall|later: int| pressed < later implies !#[trigger] releases_key(
                    events,
                    key,
                    later,
                ) by {
                    if later < last {
                        assert(!releases_key(shorter, key, later));
                    }
                }
            }
        }
        if exists|pressed: int| #[trigger]
            presses_key(events, key, pressed) && forall|later: int|
                pressed < later ==> !#[trigger] releases_key(events, key, later) {
            let pressed = choose|pressed: int| #[trigger]
                presses_key(events, key, pressed) && forall|later: int|
                    pressed < later ==> !#[trigger] releases_key(events, key, later);
            if pressed < last {
                assert(presses_key(shorter, key, pressed));
                assert forall|later: int| pressed < later implies !#[trigger] releases_key(
                    shorter,
                    key,
                    later,
                ) by {
                    if later < last {
                        assert(!releases_key(events, key, later));
                    }
                }
                assert(!releases_key(events, key, last));
            }
        }
    }
}

/// The event at `index` presses the button.
pub open spec fn presses_button(events: Seq<InputEvent>, button: MouseButton, index: int) -> bool {
    0 <= index < events.len() && (events[index].kind matches InputKind::PointerButton {
        button: moved,
        action,
    } && moved == button && action is Press)
}

/// The event at `index` releases the button.
pub open spec fn releases_button(events: Seq<InputEvent>, button: MouseButton, index: int) -> bool {
    0 <= index < events.len() && (events[index].kind matches InputKind::PointerButton {
        button: moved,
        action,
    } && moved == button && action is Release)
}

/// Of a series of events that begins with nothing held, exactly those buttons are
/// held down at the end that were pressed and not released since.
pub proof fn law_buttons_are_held_from_press_to_release(
    events: Seq<InputEvent>,
    button: MouseButton,
)
    ensures
        crate::platform::state::held_after_all(
            HeldView { keys: Set::empty(), buttons: Set::empty() },
            events,
        ).buttons.contains(button) <==> exists|pressed: int| #[trigger]
            presses_button(events, button, pressed) && forall|later: int|
                pressed < later ==> !#[trigger] releases_button(events, button, later),
    decreases events.len(),
{
    let start = HeldView { keys: Set::empty(), buttons: Set::empty() };
    if events.len() > 0 {
        let shorter = events.drop_last();
        let last = events.len() - 1;
        let event = events.last();
        law_buttons_are_held_from_press_to_release(shorter, button);
        law_held_input_follows_the_events(
            crate::platform::state::held_after_all(start, shorter),
            event,
        );
        assert forall|i: int| i < last implies #[trigger] presses_button(events, button, i)
            == presses_button(shorter, button, i) by {}
        assert forall|i: int| i < last implies #[trigger] releases_button(events, button, i)
            == releases_button(shorter, button, i) by {}
        if crate::platform::state::held_after_all(start, events).buttons.contains(button) {
            if presses_button(events, button, last) {
                assert(forall|later: int| last < later ==> !#[trigger] releases_button(
                    events,
                    button,
                    later,
                ));
            } else {
                let pressed = choose|pressed: int| #[trigger]
                    presses_button(shorter, button, pressed) && forall|later: int|
                        pressed < later ==> !#[trigger] releases_button(shorter, button, later);
                assert(presses_button(events, button, pressed));
                assert forall|later: int| pressed < later implies !#[trigger] releases_button(
                    events,
                    button,
                    later,
                ) by {
                    if later < last {
                        assert(!releases_button(shorter, button, later));
                    }
                }
            }
        }
        if exists|pressed: int| #[trigger]
            presses_button(events, button, pressed) && forall|later: int|
                pressed < later ==> !#[trigger] releases_button(events, button, later) {
            let pressed = choose|pressed: int| #[trigger]
                presses_button(events, button, pressed) && forall|later: int|
                    pressed < later ==> !#[trigger] releases_button(events, button, later);
            if pressed < last {
                assert(presses_button(shorter, button, pressed));
                assert forall|later: int| pressed < later implies !#[trigger] releases_button(
                    shorter,
                    button,
                    later,
                ) by {
                    if later < last {
                        assert(!releases_button(events, button, later));
                    }
                }
                assert(!releases_button(events, button, last));
            }
        }
    }
}

/// The releases of all that is held down are one release for each key and button
/// that is held, and none of anything else.
pub proof fn law_releases_are_of_what_is_held(
    events: Seq<InputEvent>,
    held: HeldView,
    elapsed_micros: u64,
    index: int,
)
    requires
        crate::platform::state::releases_all(events, held, elapsed_micros),
        0 <= index < events.len(),
    ensures
        events[index].elapsed_micros == elapsed_micros,
        (events[index].kind matches InputKind::Key { key, action } && action is Release
            && held.keys.contains(key)) || (events[index].kind matches InputKind::PointerButton {
            button,
            action,
        } && action is Release && held.buttons.contains(button)),
{
    assert(events.contains(events[index]));
}

/// Of a batch, exactly the events are taken into account whose injection
/// succeeded.
pub proof fn law_failed_injections_do_not_count(
    events: Seq<InputEvent>,
    outcomes: Seq<bool>,
    event: InputEvent,
)
    requires
        events.len() <= outcomes.len(),
    ensures
        crate::platform::injection::injected(events, outcomes).contains(event) <==> exists|i: int|
            0 <= i < events.len() && #[trigger] events[i] == event && outcomes[i],
    decreases events.len(),
{
    if events.len() > 0 {
        let shorter = events.drop_last();
        let last = events.len() - 1;
        let rest = crate::platform::injection::injected(shorter, outcomes);
        law_failed_injections_do_not_count(shorter, outcomes, event);
        vstd::seq_lib::lemma_seq_contains_after_push(rest, events.last(), event);
        assert(events[last] == events.last());
        if exists|i: int| 0 <= i < events.len() && #[trigger] events[i] == event && outcomes[i] {
            let i = choose|i: int|
                0 <= i < events.len() && #[trigger] events[i] == event && outcomes[i];
            if i < last {
                assert(shorter[i] == event);
            }
        }
        if exists|i: int| 0 <= i < shorter.len() && #[trigger] shorter[i] == event && outcomes[i] {
            let i = choose|i: int|
                0 <= i < shorter.len() && #[trigger] shorter[i] == event && outcomes[i];
            assert(events[i] == event);
        }
    }
}

/// While an armed edge is crossed, what is captured is passed on unchanged and is
/// held down as it says; otherwise nothing is passed on and nothing changes. A
/// crossing of an armed edge is told of that edge, one of another is let go.
pub proof fn law_captured_input_is_passed_on(
    state: CaptureView,
    event: InputEvent,
    edge: crate::domain::topology::Edge,
)
    ensures
        state.accepting ==> crate::platform::capture::capture_action(
            state,
            CaptureInput::Captured(Ok(Some(event))),
        ) == Some(CaptureAction::PassOn(event)),
        !state.accepting ==> crate::platform::capture::capture_action(
            state,
            CaptureInput::Captured(Ok(Some(event))),
        ) is None && crate::platform::capture::capture_after(
            state,
            CaptureInput::Captured(Ok(Some(event))),
        ) == state,
        state.enabled.contains(edge) ==> crate::platform::capture::capture_action(
            state,
            CaptureInput::Activated(edge),
        ) == Some(CaptureAction::Activate(edge)) && crate::platform::capture::capture_after(
            state,
            CaptureInput::Activated(edge),
        ).accepting,
        !state.enabled.contains(edge) ==> (crate::platform::capture::capture_action(
            state,
            CaptureInput::Activated(edge),
        ) matches Some(CaptureAction::Release { operation: _, after })
            && after is Nothing) && !crate::platform::capture::capture_after(
            state,
            CaptureInput::Activated(edge),
        ).accepting,
{
}

/// Giving the input back lets the native capture go and confirms that; a changed
/// desktop lets it go and is announced; other edges let it go and are armed from
/// then on, and the same edges change nothing.
pub proof fn law_capture_is_let_go(
    state: CaptureView,
    edges: Set<crate::domain::topology::Edge>,
    geometry: crate::platform::geometry::DesktopGeometry,
)
    ensures
        crate::platform::capture::capture_action(state, CaptureInput::Release) matches Some(
            CaptureAction::Release { operation: _, after },
        ) && after is Confirm,
        crate::platform::capture::capture_action(
            state,
            CaptureInput::DesktopChanged(geometry),
        ) matches Some(CaptureAction::Release { operation: _, after }) && after
            == AfterRelease::Announce(geometry),
        crate::platform::capture::capture_after(state, CaptureInput::Configure(edges)).enabled
            == edges,
        edges == state.enabled ==> crate::platform::capture::capture_action(
            state,
            CaptureInput::Configure(edges),
        ) is None && crate::platform::capture::capture_after(
            state,
            CaptureInput::Configure(edges),
        ) == state,
        edges != state.enabled ==> (crate::platform::capture::capture_action(
            state,
            CaptureInput::Configure(edges),
        ) matches Some(CaptureAction::Release { operation: _, after }) && after is Nothing),
        crate::platform::capture::capture_after(state, CaptureInput::Release).enabled
            == state.enabled,
        crate::platform::capture::capture_after(
            state,
            CaptureInput::DesktopChanged(geometry),
        ).enabled == state.enabled,
{
    assert(crate::platform::capture::capture_after(state, CaptureInput::Configure(state.enabled))
        =~= state);
}

/// Input is passed on from the crossing of an armed edge until it is given back,
/// the desktop changes or other edges are armed; each of these leaves nothing held.
pub proof fn law_input_is_passed_on_until_it_is_given_back(
    state: CaptureView,
    edge: crate::domain::topology::Edge,
    edges: Set<crate::domain::topology::Edge>,
    geometry: crate::platform::geometry::DesktopGeometry,
    captured: Result<Option<InputEvent>, ConversionError>,
)
    requires
        state.enabled.contains(edge),
    ensures
        ({
            let crossed = crate::platform::capture::capture_after(
                state,
                CaptureInput::Activated(edge),
            );
            let during = crate::platform::capture::capture_after(
                crossed,
                CaptureInput::Captured(captured),
            );
            let released = crate::platform::capture::capture_after(during, CaptureInput::Release);
            let moved = crate::platform::capture::capture_after(
                during,
                CaptureInput::DesktopChanged(geometry),
            );
            let armed = crate::platform::capture::capture_after(
                during,
                CaptureInput::Configure(edges),
            );
            &&& crossed.accepting && crossed.held == state.held && crossed.enabled == state.enabled
            &&& during.accepting && during.enabled == state.enabled
            &&& !released.accepting && released.held.keys == Set::<PhysicalKey>::empty()
                && released.held.buttons == Set::<MouseButton>::empty()
            &&& !moved.accepting && moved.held.keys == Set::<PhysicalKey>::empty()
                && moved.held.buttons == Set::<MouseButton>::empty()
            &&& edges != state.enabled ==> !armed.accepting && armed.held.keys == Set::<
                PhysicalKey,
            >::empty() && armed.held.buttons == Set::<MouseButton>::empty()
            &&& edges == state.enabled ==> armed.accepting && armed.held == during.held
            &&& captured matches Ok(Some(event)) ==> (event.kind matches InputKind::Key {
                key,
                action,
            } ==> during.held.keys == if action is Release {
                state.held.keys.remove(key)
            } else {
                state.held.keys.insert(key)
            })
            &&& !(captured matches Ok(Some(_))) ==> during == crossed
        }),
{
}

/// Input that cannot be read is reported while input is passed on, and input that
/// means nothing is passed over.
pub proof fn law_unreadable_input_is_reported(state: CaptureView, error: ConversionError)
    ensures
        state.accepting ==> (crate::platform::capture::capture_action(
            state,
            CaptureInput::Captured(Err(error)),
        ) matches Some(CaptureAction::Report { operation: _, error: told }) && told == error),
        crate::platform::capture::capture_action(state, CaptureInput::Captured(Ok(None))) is None,
        !state.accepting ==> crate::platform::capture::capture_action(
            state,
            CaptureInput::Captured(Err(error)),
        ) is None,
{
}

/// Devices offer together what any of them offers, whichever comes first; of their
/// desktops the one that came last counts. They are complete once there is a
/// pointer, a keyboard, buttons, a scroll wheel and a desktop.
pub proof fn law_devices_add_up(
    devices: InjectionDevices,
    a: DeviceInterfaces,
    b: DeviceInterfaces,
)
    ensures
        ({
            let both = devices.with(a).with(b);
            let turned = devices.with(b).with(a);
            &&& both.pointer == turned.pointer && both.keyboard == turned.keyboard
            &&& both.button == turned.button && both.scroll == turned.scroll
            &&& both.pointer <==> devices.pointer || a.pointer || b.pointer
            &&& both.keyboard <==> devices.keyboard || a.keyboard || b.keyboard
            &&& both.button <==> devices.button || a.button || b.button
            &&& both.scroll <==> devices.scroll || a.scroll || b.scroll
            &&& b.pointer_absolute is Some ==> both.geometry == b.pointer_absolute
            &&& b.pointer_absolute is None ==> both.geometry == devices.with(a).geometry
            &&& both.is_complete() <==> both.pointer && both.keyboard && both.button && both.scroll
                && both.geometry is Some
            &&& devices.is_complete() ==> both.is_complete()
            &&& both.ready == devices.ready
        }),
{
}

} // verus!
