//! Input events.

use vstd::prelude::*;

use crate::domain::geometry::Point;
use crate::domain::nonzero::NonZeroU16;

verus! {

/// A USB HID usage, retained as a physical key across operating systems.
#[derive(Clone, Copy, Debug, PartialEq, Eq, Structural, Hash)]
pub struct PhysicalKey {
    pub usage_page: u16,
    pub usage_id: u16,
}

impl PhysicalKey {
    pub fn new(usage_page: u16, usage_id: u16) -> (key: PhysicalKey)
        ensures
            key == (PhysicalKey { usage_page, usage_id }),
    {
        PhysicalKey { usage_page, usage_id }
    }
}

#[derive(Clone, Copy, Debug, PartialEq, Eq, Structural)]
pub enum KeyAction {
    Press,
    Repeat { count: NonZeroU16 },
    Release,
}

#[derive(Clone, Copy, Debug, PartialEq, Eq, Structural)]
pub enum ButtonAction {
    Press,
    Release,
}

#[derive(Clone, Copy, Debug, PartialEq, Eq, Structural, Hash)]
pub enum MouseButton {
    Primary,
    Secondary,
    Middle,
    Back,
    Forward,
    Other(u16),
}

#[derive(Clone, Copy, Debug, PartialEq, Eq, Structural)]
pub enum ScrollDelta {
    /// Steps of a physical wheel, in 120ths of a detent.
    Discrete { horizontal_120: i32, vertical_120: i32 },
    /// Micropixels from a high-resolution scrolling device.
    Continuous { horizontal_micropixels: i64, vertical_micropixels: i64 },
}

#[allow(inconsistent_fields)]
#[derive(Clone, Copy, Debug, PartialEq, Eq, Structural)]
pub enum InputKind {
    Key { key: PhysicalKey, action: KeyAction },
    PointerButton { button: MouseButton, action: ButtonAction },
    PointerRelative { dx_micropixels: i64, dy_micropixels: i64 },
    PointerAbsolute(Point),
    Scroll(ScrollDelta),
}

/// One input event timestamped relative to the start of its session.
#[derive(Clone, Copy, Debug, PartialEq, Eq, Structural)]
pub struct InputEvent {
    pub elapsed_micros: u64,
    pub kind: InputKind,
}

} // verus!
