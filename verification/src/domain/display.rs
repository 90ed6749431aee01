//! Monitors and the aggregate desktop that they form.

use vstd::prelude::*;
use vstd::string::*;

use crate::domain::geometry::{Point, Rect, Size};
use crate::domain::nonzero::NonZeroU32;
use crate::domain::topology::Edge;
use crate::text::push_decimal;

verus! {

pub const MAX_MONITORS_PER_DESKTOP: usize = 32;

pub const MAX_MONITOR_NAME_BYTES: usize = 128;

/// The scale of a desktop that is shown at its native size.
pub const FULL_SCALE_MILLI: u32 = 1000;

#[derive(Clone, Copy, Debug, PartialEq, Eq, Structural)]
pub enum DisplayRotation {
    Normal,
    Clockwise90,
    Clockwise180,
    Clockwise270,
}

#[derive(Debug, Eq)]
pub struct Monitor {
    pub name: Option<String>,
    /// Bounds relative to the aggregate desktop origin.
    pub bounds: Rect,
    /// Desktop scale in thousandths, where 1000 is 100%.
    pub scale_milli: NonZeroU32,
    pub rotation: DisplayRotation,
}

/// A monitor with its name as a sequence of characters.
pub ghost struct MonitorView {
    pub name: Option<Seq<char>>,
    pub bounds: Rect,
    pub scale_milli: NonZeroU32,
    pub rotation: DisplayRotation,
}

/// The characters of an optional text.
pub open spec fn optional_text(text: Option<String>) -> Option<Seq<char>> {
    match text {
        Some(text) => Some(text@),
        None => None,
    }
}

impl View for Monitor {
    type V = MonitorView;

    open spec fn view(&self) -> MonitorView {
        MonitorView {
            name: optional_text(self.name),
            bounds: self.bounds,
            scale_milli: self.scale_milli,
            rotation: self.rotation,
        }
    }
}

impl MonitorView {
    /// The name takes more than `MAX_MONITOR_NAME_BYTES` bytes as UTF-8.
    pub open spec fn name_is_too_long(self) -> bool {
        match self.name {
            Some(name) => vstd::utf8::encode_utf8(name).len() > MAX_MONITOR_NAME_BYTES,
            None => false,
        }
    }

    /// The monitor lies inside a desktop of this size.
    pub open spec fn lies_inside(self, size: Size) -> bool {
        &&& self.bounds.x0() >= 0
        &&& self.bounds.y0() >= 0
        &&& self.bounds.x1() <= size.width@
        &&& self.bounds.y1() <= size.height@
    }

    /// The monitor ends where the desktop ends in direction `edge`.
    pub open spec fn reaches(self, size: Size, edge: Edge) -> bool {
        match edge {
            Edge::Left => self.bounds.x0() == 0,
            Edge::Right => self.bounds.x1() == size.width@,
            Edge::Top => self.bounds.y0() == 0,
            Edge::Bottom => self.bounds.y1() == size.height@,
        }
    }

    /// Where the monitor starts along `edge`.
    pub open spec fn start_along(self, edge: Edge) -> int {
        match edge {
            Edge::Left | Edge::Right => self.bounds.y0(),
            Edge::Top | Edge::Bottom => self.bounds.x0(),
        }
    }

    /// One past where the monitor ends along `edge`.
    pub open spec fn end_along(self, edge: Edge) -> int {
        match edge {
            Edge::Left | Edge::Right => self.bounds.y1(),
            Edge::Top | Edge::Bottom => self.bounds.x1(),
        }
    }

    pub open spec fn is_acceptable(self, size: Size) -> bool {
        !self.name_is_too_long() && self.lies_inside(size)
    }
}

impl Monitor {
    /// An unrotated monitor at its native scale.
    pub fn new(name: Option<String>, bounds: Rect) -> (monitor: Monitor)
        ensures
            monitor.name == name,
            monitor.bounds == bounds,
            monitor.scale_milli@ == FULL_SCALE_MILLI,
            monitor.rotation == DisplayRotation::Normal,
    {
        let scale_milli = match NonZeroU32::new(FULL_SCALE_MILLI) {
            Some(scale) => scale,
            None => NonZeroU32::min_value(),
        };
        Monitor { name, bounds, scale_milli, rotation: DisplayRotation::Normal }
    }

    fn reaches_edge(&self, size: Size, edge: Edge) -> (result: bool)
        ensures
            result == self@.reaches(size, edge),
    {
        match edge {
            Edge::Left => self.bounds.left() == 0,
            Edge::Right => self.bounds.right() == size.width.get() as i64,
            Edge::Top => self.bounds.top() == 0,
            Edge::Bottom => self.bounds.bottom() == size.height.get() as i64,
        }
    }

    fn span_along(&self, edge: Edge) -> (span: (i64, i64))
        ensures
            span.0 == self@.start_along(edge),
            span.1 == self@.end_along(edge),
            span.0 < span.1,
    {
        match edge {
            Edge::Left | Edge::Right => (self.bounds.top(), self.bounds.bottom()),
            Edge::Top | Edge::Bottom => (self.bounds.left(), self.bounds.right()),
        }
    }
}

impl Clone for Monitor {
    fn clone(&self) -> (copy: Monitor)
        ensures
            copy == *self,
    {
        let name = match &self.name {
            Some(name) => Some(name.clone()),
            None => None,
        };
        Monitor {
            name,
            bounds: self.bounds,
            scale_milli: self.scale_milli,
            rotation: self.rotation,
        }
    }
}

impl PartialEq for Monitor {
    fn eq(&self, other: &Monitor) -> (result: bool) {
        let same_name = match (&self.name, &other.name) {
            (Some(mine), Some(theirs)) => *mine == *theirs,
            (None, None) => true,
            _ => false,
        };
        same_name && self.bounds == other.bounds && self.scale_milli == other.scale_milli
            && self.rotation == other.rotation
    }
}

impl vstd::std_specs::cmp::PartialEqSpecImpl for Monitor {
    open spec fn obeys_eq_spec() -> bool {
        true
    }

    open spec fn eq_spec(&self, other: &Monitor) -> bool {
        self@ == other@
    }
}

/// The monitors of one node in the coordinates of their common bounding box.
#[derive(Debug, Eq)]
pub struct DesktopLayout {
    size: Size,
    monitors: Vec<Monitor>,
}

#[verifier::ext_equal]
pub ghost struct LayoutView {
    pub size: Size,
    pub monitors: Seq<MonitorView>,
}

impl View for DesktopLayout {
    type V = LayoutView;

    closed spec fn view(&self) -> LayoutView {
        LayoutView {
            size: self.size,
            monitors: self.monitors@.map_values(|monitor: Monitor| monitor@),
        }
    }
}

impl LayoutView {
    /// A desktop of one unnamed monitor.
    pub open spec fn single(size: Size, scale_milli: NonZeroU32) -> LayoutView {
        LayoutView {
            size,
            monitors: seq![
                MonitorView {
                    name: None,
                    bounds: Rect { origin: Point { x: 0, y: 0 }, size },
                    scale_milli,
                    rotation: DisplayRotation::Normal,
                },
            ],
        }
    }

    /// A desktop of one unnamed monitor at full scale.
    pub open spec fn whole(size: Size) -> LayoutView {
        LayoutView::single(size, NonZeroU32::of(FULL_SCALE_MILLI))
    }

    /// Some monitor reaches the end of the desktop in direction `edge`.
    pub open spec fn is_reached(self, edge: Edge) -> bool {
        exists|i: int|
            0 <= i < self.monitors.len() && #[trigger] self.monitors[i].reaches(self.size, edge)
    }

    /// The monitors reach all four edges of the desktop.
    pub open spec fn is_spanned(self) -> bool {
        &&& self.is_reached(Edge::Left)
        &&& self.is_reached(Edge::Right)
        &&& self.is_reached(Edge::Top)
        &&& self.is_reached(Edge::Bottom)
    }

    /// Between 1 and 32 monitors, each with a short name and inside the
    /// desktop, that together reach all its edges.
    pub open spec fn is_valid(self) -> bool {
        &&& 0 < self.monitors.len() <= MAX_MONITORS_PER_DESKTOP
        &&& forall|i: int|
            0 <= i < self.monitors.len() ==> (#[trigger] self.monitors[i]).is_acceptable(self.size)
        &&& self.is_spanned()
    }

    /// `index` is where the first monitor stands that is not acceptable.
    pub open spec fn is_first_fault(self, index: int) -> bool {
        &&& 0 < self.monitors.len() <= MAX_MONITORS_PER_DESKTOP
        &&& 0 <= index < self.monitors.len()
        &&& !self.monitors[index].is_acceptable(self.size)
        &&& forall|i: int| 0 <= i < index ==> (#[trigger] self.monitors[i]).is_acceptable(self.size)
    }

    /// A monitor shows the pixel at `(x, y)`.
    pub open spec fn shows(self, x: int, y: int) -> bool {
        exists|i: int|
            0 <= i < self.monitors.len() && #[trigger] self.monitors[i].bounds.covers(x, y)
    }

    /// The pixel at `offset` along `edge` of the desktop belongs to a monitor.
    pub open spec fn exposes(self, edge: Edge, offset: int) -> bool {
        exists|i: int|
            0 <= i < self.monitors.len() && #[trigger] self.monitors[i].reaches(self.size, edge)
                && self.monitors[i].start_along(edge) <= offset < self.monitors[i].end_along(edge)
    }

    /// The monitor has a part of `edge` that can be given in `u32`.
    pub open spec fn has_segment(self, edge: Edge, index: int) -> bool {
        &&& self.monitors[index].reaches(self.size, edge)
        &&& 0 <= self.monitors[index].start_along(edge)
        &&& self.monitors[index].end_along(edge) <= u32::MAX
    }

    /// The parts of `edge` that the first `count` monitors occupy, in order.
    pub open spec fn segments_of(self, edge: Edge, count: int) -> Seq<(u32, u32)>
        decreases count,
    {
        if count <= 0 {
            Seq::empty()
        } else {
            let monitor = self.monitors[count - 1];
            let earlier = self.segments_of(edge, count - 1);
            if self.has_segment(edge, count - 1) {
                earlier.push((monitor.start_along(edge) as u32, monitor.end_along(edge) as u32))
            } else {
                earlier
            }
        }
    }

    /// The parts of `edge` that monitors occupy, in monitor order.
    pub open spec fn segments(self, edge: Edge) -> Seq<(u32, u32)> {
        self.segments_of(edge, self.monitors.len() as int)
    }
}

impl DesktopLayout {
    pub fn new(size: Size, monitors: Vec<Monitor>) -> (result: Result<
        DesktopLayout,
        DesktopLayoutError,
    >)
        ensures
            ({
                let wanted = LayoutView {
                    size,
                    monitors: monitors@.map_values(|monitor: Monitor| monitor@),
                };
                &&& result is Ok <==> wanted.is_valid()
                &&& result matches Ok(layout) ==> layout@ == wanted
                &&& result matches Err(error) ==> error.applies_to(wanted)
            }),
    {
        let layout = DesktopLayout { size, monitors };
        match layout.validate() {
            Ok(()) => Ok(layout),
            Err(error) => Err(error),
        }
    }

    /// One monitor that fills the desktop.
    pub fn single(size: Size) -> (layout: DesktopLayout)
        ensures
            layout@.size == size,
            layout@ == LayoutView::whole(size),
            layout@.monitors[0].scale_milli@ == FULL_SCALE_MILLI,
            layout@.is_valid(),
    {
        let monitor = Monitor::new(None, Rect::new(Point { x: 0, y: 0 }, size));
        let ghost scale = monitor.scale_milli;
        let layout = DesktopLayout { size, monitors: vec![monitor] };
        proof {
            NonZeroU32::lemma_of(FULL_SCALE_MILLI);
            crate::domain::nonzero::lemma_nonzero_u32_identity(
                scale,
                NonZeroU32::of(FULL_SCALE_MILLI),
            );
            assert(layout@ =~= LayoutView::whole(size));
            assert(layout@.size == size);
            assert(layout@.monitors[0].is_acceptable(size));
            assert(layout@.monitors[0].reaches(size, Edge::Left));
            assert(layout@.monitors[0].reaches(size, Edge::Right));
            assert(layout@.monitors[0].reaches(size, Edge::Top));
            assert(layout@.monitors[0].reaches(size, Edge::Bottom));
        }
        layout
    }

    pub fn size(&self) -> (size: Size)
        ensures
            size == self@.size,
    {
        self.size
    }

    pub fn monitors(&self) -> (monitors: &[Monitor])
        ensures
            monitors@.map_values(|monitor: Monitor| monitor@) == self@.monitors,
    {
        self.monitors.as_slice()
    }

    pub fn monitor_count(&self) -> (count: usize)
        ensures
            count == self@.monitors.len(),
    {
        self.monitors.len()
    }

    /// Checks the number, names and bounds of the monitors.
    pub fn validate(&self) -> (result: Result<(), DesktopLayoutError>)
        ensures
            result is Ok <==> self@.is_valid(),
            result matches Err(error) ==> error.applies_to(self@),
    {
        if self.monitors.is_empty() {
            return Err(DesktopLayoutError::Empty);
        }
        if self.monitors.len() > MAX_MONITORS_PER_DESKTOP {
            return Err(
                DesktopLayoutError::TooManyMonitors {
                    actual: self.monitors.len(),
                    maximum: MAX_MONITORS_PER_DESKTOP,
                },
            );
        }
        let mut reaches_left = false;
        let mut reaches_right = false;
        let mut reaches_top = false;
        let mut reaches_bottom = false;
        let mut index: usize = 0;
        while index < self.monitors.len()
            invariant
                index <= self.monitors.len(),
                0 < self.monitors.len() <= MAX_MONITORS_PER_DESKTOP,
                forall|i: int|
                    0 <= i < index ==> (#[trigger] self@.monitors[i]).is_acceptable(self.size),
                reaches_left <==> exists|i: int|
                    0 <= i < index && #[trigger] self@.monitors[i].reaches(self.size, Edge::Left),
                reaches_right <==> exists|i: int|
                    0 <= i < index && #[trigger] self@.monitors[i].reaches(self.size, Edge::Right),
                reaches_top <==> exists|i: int|
                    0 <= i < index && #[trigger] self@.monitors[i].reaches(self.size, Edge::Top),
                reaches_bottom <==> exists|i: int|
                    0 <= i < index && #[trigger] self@.monitors[i].reaches(self.size, Edge::Bottom),
            decreases self.monitors.len() - index,
        {
            let monitor = &self.monitors[index];
            assert(self@.monitors[index as int] == monitor@);
            if let Some(name) = &monitor.name {
                if name.as_str().as_bytes().len() > MAX_MONITOR_NAME_BYTES {
                    return Err(
                        DesktopLayoutError::MonitorNameTooLong {
                            index,
                            maximum: MAX_MONITOR_NAME_BYTES,
                        },
                    );
                }
            }
            if monitor.bounds.origin.x < 0 || monitor.bounds.origin.y < 0 || monitor.bounds.right()
                > self.size.width.get() as i64 || monitor.bounds.bottom()
                > self.size.height.get() as i64 {
                return Err(DesktopLayoutError::MonitorOutsideDesktop { index });
            }
            if monitor.reaches_edge(self.size, Edge::Left) {
                reaches_left = true;
            }
            if monitor.reaches_edge(self.size, Edge::Right) {
                reaches_right = true;
            }
            if monitor.reaches_edge(self.size, Edge::Top) {
                reaches_top = true;
            }
            if monitor.reaches_edge(self.size, Edge::Bottom) {
                reaches_bottom = true;
            }
            index += 1;
        }
        assert(self@.monitors.len() == index);
        assert(self@.size == self.size);
        if !(reaches_left && reaches_right && reaches_top && reaches_bottom) {
            return Err(DesktopLayoutError::DoesNotSpanDesktop);
        }
        Ok(())
    }

    /// Whether a monitor shows the pixel at `point`.
    pub fn contains(&self, point: Point) -> (result: bool)
        ensures
            result == self@.shows(point.x as int, point.y as int),
    {
        self.contains_coordinates(point.x as i64, point.y as i64)
    }

    /// Whether a monitor shows the pixel at `(x, y)`.
    pub fn contains_coordinates(&self, x: i64, y: i64) -> (result: bool)
        ensures
            result == self@.shows(x as int, y as int),
    {
        let mut index: usize = 0;
        while index < self.monitors.len()
            invariant
                index <= self.monitors.len(),
                forall|i: int|
                    0 <= i < index ==> !(#[trigger] self@.monitors[i].bounds.covers(
                        x as int,
                        y as int,
                    )),
            decreases self.monitors.len() - index,
        {
            assert(self@.monitors[index as int] == self.monitors[index as int]@);
            if self.monitors[index].bounds.contains_coordinates(x, y) {
                assert(self@.monitors[index as int].bounds.covers(x as int, y as int));
                return true;
            }
            index += 1;
        }
        false
    }

    /// Whether the pixel at `offset` along `edge` of the desktop belongs to a
    /// monitor.
    pub fn contains_edge_offset(&self, edge: Edge, offset: u32) -> (result: bool)
        ensures
            result == self@.exposes(edge, offset as int),
    {
        let mut index: usize = 0;
        while index < self.monitors.len()
            invariant
                index <= self.monitors.len(),
                forall|i: int|
                    0 <= i < index && #[trigger] self@.monitors[i].reaches(self.size, edge) ==> !(
                    self@.monitors[i].start_along(edge) <= offset < self@.monitors[i].end_along(
                        edge,
                    )),
            decreases self.monitors.len() - index,
        {
            let monitor = &self.monitors[index];
            assert(self@.monitors[index as int] == monitor@);
            if monitor.reaches_edge(self.size, edge) {
                let (start, end) = monitor.span_along(edge);
                if contains_axis(start, end, offset as i64) {
                    assert(self@.monitors[index as int].reaches(self@.size, edge));
                    return true;
                }
            }
            index += 1;
        }
        false
    }

    /// The parts of `edge` that monitors occupy, each from its first offset to
    /// one past its last, in monitor order.
    pub fn edge_segments(&self, edge: Edge) -> (segments: Vec<(u32, u32)>)
        ensures
            segments@ == self@.segments(edge),
    {
        let mut segments: Vec<(u32, u32)> = Vec::new();
        let mut index: usize = 0;
        while index < self.monitors.len()
            invariant
                index <= self.monitors.len(),
                segments@ == self@.segments_of(edge, index as int),
            decreases self.monitors.len() - index,
        {
            let monitor = &self.monitors[index];
            assert(self@.monitors[index as int] == monitor@);
            if monitor.reaches_edge(self.size, edge) {
                let (start, end) = monitor.span_along(edge);
                if start >= 0 && end <= u32::MAX as i64 {
                    segments.push((start as u32, end as u32));
                }
            }
            index += 1;
        }
        segments
    }
}

fn contains_axis(start: i64, end: i64, value: i64) -> (result: bool)
    ensures
        result == (start <= value < end),
{
    value >= start && value < end
}

impl Clone for DesktopLayout {
    fn clone(&self) -> (copy: DesktopLayout)
        ensures
            copy@ == self@,
    {
        let mut monitors: Vec<Monitor> = Vec::new();
        let mut index: usize = 0;
        while index < self.monitors.len()
            invariant
                index <= self.monitors.len(),
                monitors@ == self.monitors@.take(index as int),
            decreases self.monitors.len() - index,
        {
            monitors.push(self.monitors[index].clone());
            index += 1;
        }
        let copy = DesktopLayout { size: self.size, monitors };
        assert(copy@ =~= self@);
        copy
    }
}

impl PartialEq for DesktopLayout {
    fn eq(&self, other: &DesktopLayout) -> (result: bool) {
        assert(self@.monitors.len() == self.monitors@.len());
        assert(other@.monitors.len() == other.monitors@.len());
        if self.size != other.size || self.monitors.len() != other.monitors.len() {
            return false;
        }
        let mut index: usize = 0;
        while index < self.monitors.len()
            invariant
                index <= self.monitors.len(),
                self.monitors.len() == other.monitors.len(),
                self.size == other.size,
                forall|i: int|
                    0 <= i < index ==> #[trigger] self@.monitors[i] == other@.monitors[i],
            decreases self.monitors.len() - index,
        {
            assert(self@.monitors[index as int] == self.monitors[index as int]@);
            assert(other@.monitors[index as int] == other.monitors[index as int]@);
            if self.monitors[index] != other.monitors[index] {
                return false;
            }
            index += 1;
        }
        assert(self@ =~= other@);
        true
    }
}

impl vstd::std_specs::cmp::PartialEqSpecImpl for DesktopLayout {
    open spec fn obeys_eq_spec() -> bool {
        true
    }

    open spec fn eq_spec(&self, other: &DesktopLayout) -> bool {
        self@ == other@
    }
}

/// Why a set of monitors is not a desktop.
#[derive(Clone, Copy, Debug, PartialEq, Eq, Structural)]
pub enum DesktopLayoutError {
    Empty,
    TooManyMonitors { actual: usize, maximum: usize },
    MonitorNameTooLong { index: usize, maximum: usize },
    MonitorOutsideDesktop { index: usize },
    DoesNotSpanDesktop,
}

impl DesktopLayoutError {
    /// The error in words.
    pub open spec fn text(self) -> Seq<char> {
        match self {
            DesktopLayoutError::Empty => "desktop layout must contain at least one monitor"@,
            DesktopLayoutError::TooManyMonitors { actual, maximum } => "desktop layout contains "@
                + crate::text::decimal(actual as nat) + " monitors; the maximum is "@
                + crate::text::decimal(maximum as nat),
            DesktopLayoutError::MonitorNameTooLong { index, maximum } => "monitor "@
                + crate::text::decimal(index as nat) + " name exceeds "@ + crate::text::decimal(
                maximum as nat,
            ) + " bytes"@,
            DesktopLayoutError::MonitorOutsideDesktop { index } => "monitor "@
                + crate::text::decimal(index as nat) + " extends outside the aggregate desktop"@,
            DesktopLayoutError::DoesNotSpanDesktop => {
                "monitor bounds do not span the aggregate desktop"@
            },
        }
    }

    /// The error in words.
    pub fn message(&self) -> (message: String)
        ensures
            message@ == self.text(),
    {
        let mut message = String::new();
        match *self {
            DesktopLayoutError::Empty => {
                message.append("desktop layout must contain at least one monitor")
            },
            DesktopLayoutError::TooManyMonitors { actual, maximum } => {
                message.append("desktop layout contains ");
                push_decimal(&mut message, actual as u64);
                message.append(" monitors; the maximum is ");
                push_decimal(&mut message, maximum as u64);
            },
            DesktopLayoutError::MonitorNameTooLong { index, maximum } => {
                message.append("monitor ");
                push_decimal(&mut message, index as u64);
                message.append(" name exceeds ");
                push_decimal(&mut message, maximum as u64);
                message.append(" bytes");
            },
            DesktopLayoutError::MonitorOutsideDesktop { index } => {
                message.append("monitor ");
                push_decimal(&mut message, index as u64);
                message.append(" extends outside the aggregate desktop");
            },
            DesktopLayoutError::DoesNotSpanDesktop => {
                message.append("monitor bounds do not span the aggregate desktop")
            },
        }
        assert(message@ =~= self.text());
        message
    }

    /// This is the error that `layout` is refused with.
    pub open spec fn applies_to(self, layout: LayoutView) -> bool {
        match self {
            DesktopLayoutError::Empty => layout.monitors.len() == 0,
            DesktopLayoutError::TooManyMonitors { actual, maximum } => {
                &&& layout.monitors.len() > MAX_MONITORS_PER_DESKTOP
                &&& actual == layout.monitors.len()
                &&& maximum == MAX_MONITORS_PER_DESKTOP
            },
            DesktopLayoutError::MonitorNameTooLong { index, maximum } => {
                &&& layout.is_first_fault(index as int)
                &&& layout.monitors[index as int].name_is_too_long()
                &&& maximum == MAX_MONITOR_NAME_BYTES
            },
            DesktopLayoutError::MonitorOutsideDesktop { index } => {
                &&& layout.is_first_fault(index as int)
                &&& !layout.monitors[index as int].name_is_too_long()
            },
            DesktopLayoutError::DoesNotSpanDesktop => {
                &&& 0 < layout.monitors.len() <= MAX_MONITORS_PER_DESKTOP
                &&& forall|i: int|
                    0 <= i < layout.monitors.len() ==> (
                    #[trigger] layout.monitors[i]).is_acceptable(layout.size)
                &&& !layout.is_spanned()
            },
        }
    }
}

} // verus!
