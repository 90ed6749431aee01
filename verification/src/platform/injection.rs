//! Which remote input is injected, and when it is released.

use vstd::prelude::*;

use crate::domain::input::InputEvent;
use crate::platform::convert::{KeyboardEvent, NativeEvent, PointerEvent};
use crate::platform::geometry::DesktopGeometry;
use crate::platform::state::HeldInput;

verus! {

/// What an injection service is doing when it fails.
#[derive(Clone, Copy, Debug, PartialEq, Eq, Structural)]
pub enum InjectionOperation {
    OpenInjection,
    Inject,
    Normalize,
    PositionPointer,
    MonitorDisplay,
    ReleaseInput,
    NormalizeHeld,
    ReleaseKeys,
}

impl InjectionOperation {
    pub fn label(self) -> (label: &'static str)
        ensures
            label@ == match self {
                InjectionOperation::OpenInjection => "open native injection"@,
                InjectionOperation::Inject => "inject input"@,
                InjectionOperation::Normalize => "normalize remote input"@,
                InjectionOperation::PositionPointer => "position remote pointer"@,
                InjectionOperation::MonitorDisplay => "monitor native display"@,
                InjectionOperation::ReleaseInput => "release held input"@,
                InjectionOperation::NormalizeHeld => "normalize held input"@,
                InjectionOperation::ReleaseKeys => "release held keys"@,
            },
    {
        match self {
            InjectionOperation::OpenInjection => "open native injection",
            InjectionOperation::Inject => "inject input",
            InjectionOperation::Normalize => "normalize remote input",
            InjectionOperation::PositionPointer => "position remote pointer",
            InjectionOperation::MonitorDisplay => "monitor native display",
            InjectionOperation::ReleaseInput => "release held input",
            InjectionOperation::NormalizeHeld => "normalize held input",
            InjectionOperation::ReleaseKeys => "release held keys",
        }
    }
}

/// Releases to inject, and the session whose release is reported then.
#[derive(Debug)]
pub struct ReleasePlan {
    pub events: Vec<InputEvent>,
    pub generation: u64,
}

/// The session whose input is injected, and what it holds down.
#[derive(Debug)]
pub struct InjectionState {
    held: HeldInput,
    active_generation: u64,
}

pub ghost struct InjectionView {
    pub held: crate::platform::state::HeldView,
    pub active_generation: u64,
}

impl View for InjectionState {
    type V = InjectionView;

    closed spec fn view(&self) -> InjectionView {
        InjectionView { held: self.held@, active_generation: self.active_generation }
    }
}

/// `plan` releases everything that the session holds down.
pub open spec fn is_release_plan(plan: ReleasePlan, state: InjectionView) -> bool {
    crate::platform::state::releases_all(plan.events@, state.held, 0) && plan.generation
        == state.active_generation
}

/// The events whose injection succeeded, in their order.
pub open spec fn injected(events: Seq<InputEvent>, outcomes: Seq<bool>) -> Seq<InputEvent>
    decreases events.len(),
{
    if events.len() == 0 {
        Seq::empty()
    } else {
        let rest = injected(events.drop_last(), outcomes);
        if outcomes[events.len() - 1] {
            rest.push(events.last())
        } else {
            rest
        }
    }
}

impl InjectionState {
    /// No session has begun yet.
    pub fn new() -> (state: InjectionState)
        ensures
            state@ == (InjectionView {
                held: crate::platform::capture::nothing_held(),
                active_generation: 0,
            }),
    {
        InjectionState { held: HeldInput::new(), active_generation: 0 }
    }

    /// Begins a session. What the last one holds down is released.
    pub fn begin_session(&mut self, generation: u64) -> (plan: ReleasePlan)
        ensures
            is_release_plan(plan, old(self)@),
            final(self)@ == (InjectionView {
                held: crate::platform::capture::nothing_held(),
                active_generation: generation,
            }),
    {
        let events = self.held.release_all(0);
        let plan = ReleasePlan { events, generation: self.active_generation };
        self.active_generation = generation;
        plan
    }

    /// Whether a command belongs to the session. Others are stale.
    pub fn accepts(&self, generation: u64) -> (result: bool)
        ensures
            result == (generation == self@.active_generation),
    {
        generation == self.active_generation
    }

    /// Takes into account which events of a batch were injected. Returns whether
    /// all of them were, so that the batch may be reported as applied.
    pub fn batch_injected(&mut self, events: &Vec<InputEvent>, outcomes: &Vec<bool>) -> (applied:
        bool)
        requires
            events@.len() == outcomes@.len(),
        ensures
            applied == (forall|i: int| 0 <= i < outcomes@.len() ==> #[trigger] outcomes@[i]),
            final(self)@ == (InjectionView {
                held: crate::platform::state::held_after_all(
                    old(self)@.held,
                    injected(events@, outcomes@),
                ),
                ..old(self)@
            }),
    {
        let ghost before = self@;
        let mut applied = true;
        let mut index: usize = 0;
        assert(events@.take(0) =~= Seq::<InputEvent>::empty());
        while index < events.len()
            invariant
                index <= events@.len(),
                events@.len() == outcomes@.len(),
                applied == (forall|i: int| 0 <= i < index ==> #[trigger] outcomes@[i]),
                self@ == (InjectionView {
                    held: crate::platform::state::held_after_all(
                        before.held,
                        injected(events@.take(index as int), outcomes@),
                    ),
                    ..before
                }),
            decreases events@.len() - index,
        {
            proof {
                let longer = events@.take(index + 1);
                assert(longer.drop_last() =~= events@.take(index as int));
                assert(longer.last() == events@[index as int]);
                let rest = injected(events@.take(index as int), outcomes@);
                assert(rest.push(events@[index as int]).drop_last() =~= rest);
            }
            if outcomes[index] {
                self.held.observe(events[index]);
            } else {
                applied = false;
            }
            index += 1;
        }
        assert(events@.take(index as int) =~= events@);
        applied
    }

    /// Releases what the session holds down, where it is the one meant.
    pub fn release_all(&mut self, generation: u64) -> (plan: Option<ReleasePlan>)
        ensures
            match plan {
                Some(plan) => {
                    &&& generation == old(self)@.active_generation
                    &&& is_release_plan(plan, old(self)@)
                    &&& final(self)@ == (InjectionView {
                        held: crate::platform::capture::nothing_held(),
                        ..old(self)@
                    })
                },
                None => generation != old(self)@.active_generation && final(self)@ == old(self)@,
            },
    {
        if generation != self.active_generation {
            return None;
        }
        Some(self.stop())
    }

    /// Releases what the session holds down when the service stops.
    pub fn stop(&mut self) -> (plan: ReleasePlan)
        ensures
            is_release_plan(plan, old(self)@),
            final(self)@ == (InjectionView {
                held: crate::platform::capture::nothing_held(),
                ..old(self)@
            }),
    {
        let events = self.held.release_all(0);
        ReleasePlan { events, generation: self.active_generation }
    }
}

/// What an injection device is asked to do. Distances are in micropixels.
#[derive(Clone, Copy, Debug, PartialEq, Eq, Structural)]
pub enum DeviceRequest {
    Move { dx_micropixels: i64, dy_micropixels: i64 },
    Button { button: u32, pressed: bool },
    Scroll { x_micropixels: i64, y_micropixels: i64 },
    ScrollSteps { x_120: i32, y_120: i32 },
    Key { key: u32, pressed: bool },
}

/// What a native event asks of the injection devices.
pub open spec fn request_of(event: NativeEvent) -> Option<DeviceRequest> {
    match event {
        NativeEvent::Pointer(PointerEvent::Motion { time, dx_micropixels, dy_micropixels }) => Some(
            DeviceRequest::Move { dx_micropixels, dy_micropixels },
        ),
        NativeEvent::Pointer(PointerEvent::Button { time, button, state }) => Some(
            DeviceRequest::Button { button, pressed: state != 0 },
        ),
        NativeEvent::Pointer(PointerEvent::Axis { time, axis, value_micropixels }) => Some(
            if axis == 0 {
                DeviceRequest::Scroll { x_micropixels: 0, y_micropixels: value_micropixels }
            } else {
                DeviceRequest::Scroll { x_micropixels: value_micropixels, y_micropixels: 0 }
            },
        ),
        NativeEvent::Pointer(PointerEvent::AxisDiscrete120 { axis, value }) => Some(
            if axis == 0 {
                DeviceRequest::ScrollSteps { x_120: 0, y_120: value }
            } else {
                DeviceRequest::ScrollSteps { x_120: value, y_120: 0 }
            },
        ),
        NativeEvent::Keyboard(KeyboardEvent::Key { time, key, state }) => Some(
            DeviceRequest::Key { key, pressed: state != 0 },
        ),
        NativeEvent::Keyboard(
            KeyboardEvent::Modifiers { depressed, latched, locked, group },
        ) => None,
    }
}

/// What a native event asks of the injection devices.
pub fn device_request(event: NativeEvent) -> (request: Option<DeviceRequest>)
    ensures
        request == request_of(event),
{
    match event {
        NativeEvent::Pointer(PointerEvent::Motion { time: _, dx_micropixels, dy_micropixels }) => {
            Some(DeviceRequest::Move { dx_micropixels, dy_micropixels })
        },
        NativeEvent::Pointer(PointerEvent::Button { time: _, button, state }) => Some(
            DeviceRequest::Button { button, pressed: state != 0 },
        ),
        NativeEvent::Pointer(PointerEvent::Axis { time: _, axis, value_micropixels }) => {
            if axis == 0 {
                Some(DeviceRequest::Scroll { x_micropixels: 0, y_micropixels: value_micropixels })
            } else {
                Some(DeviceRequest::Scroll { x_micropixels: value_micropixels, y_micropixels: 0 })
            }
        },
        NativeEvent::Pointer(PointerEvent::AxisDiscrete120 { axis, value }) => {
            if axis == 0 {
                Some(DeviceRequest::ScrollSteps { x_120: 0, y_120: value })
            } else {
                Some(DeviceRequest::ScrollSteps { x_120: value, y_120: 0 })
            }
        },
        NativeEvent::Keyboard(KeyboardEvent::Key { time: _, key, state }) => Some(
            DeviceRequest::Key { key, pressed: state != 0 },
        ),
        NativeEvent::Keyboard(KeyboardEvent::Modifiers { .. }) => None,
    }
}

/// The interfaces that a device of the compositor offers.
#[derive(Clone, Copy, Debug, PartialEq, Eq, Structural)]
pub struct DeviceInterfaces {
    pub pointer: bool,
    pub keyboard: bool,
    pub button: bool,
    pub scroll: bool,
    /// The desktop of an absolute pointer.
    pub pointer_absolute: Option<DesktopGeometry>,
}

/// What the monitor of the injection devices tells.
#[derive(Clone, Copy, Debug, PartialEq, Eq, Structural)]
pub enum DeviceNews {
    Ready(DesktopGeometry),
    DisplayChanged(DesktopGeometry),
}

/// The injection devices that were found so far.
#[derive(Clone, Copy, Debug, PartialEq, Eq, Structural)]
pub struct InjectionDevices {
    pub ready: bool,
    pub pointer: bool,
    pub keyboard: bool,
    pub button: bool,
    pub scroll: bool,
    pub geometry: Option<DesktopGeometry>,
}

impl InjectionDevices {
    /// There is a device of every kind.
    pub open spec fn is_complete(self) -> bool {
        self.pointer && self.keyboard && self.button && self.scroll && self.geometry is Some
    }

    /// The devices together with another one.
    pub open spec fn with(self, device: DeviceInterfaces) -> InjectionDevices {
        InjectionDevices {
            ready: self.ready,
            pointer: self.pointer || device.pointer,
            keyboard: self.keyboard || device.keyboard,
            button: self.button || device.button,
            scroll: self.scroll || device.scroll,
            geometry: match device.pointer_absolute {
                Some(geometry) => Some(geometry),
                None => self.geometry,
            },
        }
    }

    pub fn new() -> (devices: InjectionDevices)
        ensures
            devices == (InjectionDevices {
                ready: false,
                pointer: false,
                keyboard: false,
                button: false,
                scroll: false,
                geometry: None,
            }),
    {
        InjectionDevices {
            ready: false,
            pointer: false,
            keyboard: false,
            button: false,
            scroll: false,
            geometry: None,
        }
    }

    /// Takes a device into use. Returns the desktop that it brought.
    pub fn bind(&mut self, device: DeviceInterfaces) -> (geometry: Option<DesktopGeometry>)
        ensures
            *final(self) == old(self).with(device),
            geometry == device.pointer_absolute,
    {
        if device.pointer {
            self.pointer = true;
        }
        if device.pointer_absolute.is_some() {
            self.geometry = device.pointer_absolute;
        }
        if device.keyboard {
            self.keyboard = true;
        }
        if device.button {
            self.button = true;
        }
        if device.scroll {
            self.scroll = true;
        }
        device.pointer_absolute
    }

    pub fn is_ready(&self) -> (result: bool)
        ensures
            result == self.is_complete(),
    {
        self.pointer && self.geometry.is_some() && self.keyboard && self.button && self.scroll
    }

    /// What is told after an event that brought this desktop, if any: once that
    /// the devices are complete, and then every new desktop.
    pub fn news(&mut self, display_change: Option<DesktopGeometry>) -> (news: Option<DeviceNews>)
        ensures
            *final(self) == (InjectionDevices {
                ready: old(self).ready || old(self).is_complete(),
                ..*old(self)
            }),
            news == if !old(self).ready && old(self).is_complete() {
                Some(DeviceNews::Ready(old(self).geometry->0))
            } else if old(self).ready {
                match display_change {
                    Some(geometry) => Some(DeviceNews::DisplayChanged(geometry)),
                    None => None,
                }
            } else {
                None
            },
    {
        if !self.ready {
            if !self.is_ready() {
                return None;
            }
            self.ready = true;
            return match self.geometry {
                Some(geometry) => Some(DeviceNews::Ready(geometry)),
                None => None,
            };
        }
        match display_change {
            Some(geometry) => Some(DeviceNews::DisplayChanged(geometry)),
            None => None,
        }
    }
}

/// Why the injection devices cannot be used.
#[derive(Clone, Copy, Debug, PartialEq, Eq, Structural)]
pub enum DeviceFault {
    ChangedBeforeReady,
    DiscoveryStopped,
    TimedOut,
    MonitorStopped,
}

impl DeviceFault {
    pub fn message(self) -> (message: &'static str)
        ensures
            message@ == match self {
                DeviceFault::ChangedBeforeReady => {
                    "EIS display changed before input devices became ready"@
                },
                DeviceFault::DiscoveryStopped => "EIS input device discovery stopped"@,
                DeviceFault::TimedOut => "timed out waiting for EIS input devices"@,
                DeviceFault::MonitorStopped => "EIS input device monitor stopped"@,
            },
    {
        match self {
            DeviceFault::ChangedBeforeReady => {
                "EIS display changed before input devices became ready"
            },
            DeviceFault::DiscoveryStopped => "EIS input device discovery stopped",
            DeviceFault::TimedOut => "timed out waiting for EIS input devices",
            DeviceFault::MonitorStopped => "EIS input device monitor stopped",
        }
    }
}

/// The desktop that injection starts on: the first news of the monitor must be
/// that the devices are ready. `None` is a monitor that stopped.
pub fn starting_geometry(first: Option<DeviceNews>) -> (result: Result<
    DesktopGeometry,
    DeviceFault,
>)
    ensures
        result == match first {
            Some(DeviceNews::Ready(geometry)) => Ok::<DesktopGeometry, DeviceFault>(geometry),
            Some(DeviceNews::DisplayChanged(_)) => Err(DeviceFault::ChangedBeforeReady),
            None => Err(DeviceFault::DiscoveryStopped),
        },
{
    match first {
        Some(DeviceNews::Ready(geometry)) => Ok(geometry),
        Some(DeviceNews::DisplayChanged(_)) => Err(DeviceFault::ChangedBeforeReady),
        None => Err(DeviceFault::DiscoveryStopped),
    }
}

/// The new desktop that news of the monitor bring, if any.
pub fn display_change(news: Option<DeviceNews>) -> (geometry: Option<DesktopGeometry>)
    ensures
        geometry == match news {
            Some(DeviceNews::DisplayChanged(geometry)) => Some(geometry),
            _ => None,
        },
{
    match news {
        Some(DeviceNews::DisplayChanged(geometry)) => Some(geometry),
        _ => None,
    }
}

/// A batch is reported as applied only where all of it was injected, and then
/// the session holds down what the batch says.
pub proof fn law_applied_batches_were_injected(events: Seq<InputEvent>, outcomes: Seq<bool>)
    requires
        events.len() <= outcomes.len(),
        forall|i: int| 0 <= i < outcomes.len() ==> #[trigger] outcomes[i],
    ensures
        injected(events, outcomes) == events,
    decreases events.len(),
{
    if events.len() > 0 {
        law_applied_batches_were_injected(events.drop_last(), outcomes);
        assert(events.drop_last().push(events.last()) =~= events);
    } else {
        assert(events =~= Seq::<InputEvent>::empty());
    }
}

/// The releases of a session leave nothing held down.
pub proof fn law_release_plans_leave_nothing_held(plan: ReleasePlan, state: InjectionView)
    requires
        is_release_plan(plan, state),
    ensures
        crate::platform::state::held_after_all(state.held, plan.events@)
            == crate::platform::capture::nothing_held(),
{
    crate::platform::state::law_releases_leave_nothing_held(plan.events@, state.held, 0);
}

} // verus!
