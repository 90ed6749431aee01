//! The desktop that the monitors of a window system form.

use vstd::prelude::*;

use crate::domain::display::{DesktopLayout, DisplayRotation, Monitor};
use crate::domain::geometry::{Point, Rect, Size};
use crate::domain::identity::text_precedes;
use crate::domain::nonzero::NonZeroU32;
use crate::editor::config_editor::LocalDesktop;
use crate::platform::geometry::{geometry_from_rectangles, Rectangle};

verus! {

/// A monitor as the window system reports it.
#[derive(Debug)]
pub struct MonitorGeometry {
    pub name: Option<String>,
    pub x: i32,
    pub y: i32,
    pub width: u32,
    pub height: u32,
    /// How much larger things are shown, in thousandths.
    pub scale_milli: u32,
}

pub ghost struct ReportedMonitor {
    pub name: Option<Seq<char>>,
    pub x: i32,
    pub y: i32,
    pub width: u32,
    pub height: u32,
    pub scale_milli: u32,
}

impl View for MonitorGeometry {
    type V = ReportedMonitor;

    open spec fn view(&self) -> ReportedMonitor {
        ReportedMonitor {
            name: crate::domain::display::optional_text(self.name),
            x: self.x,
            y: self.y,
            width: self.width,
            height: self.height,
            scale_milli: self.scale_milli,
        }
    }
}

impl Clone for MonitorGeometry {
    fn clone(&self) -> (copy: MonitorGeometry)
        ensures
            copy@ == self@,
    {
        let name = match &self.name {
            Some(name) => Some(name.clone()),
            None => None,
        };
        MonitorGeometry {
            name,
            x: self.x,
            y: self.y,
            width: self.width,
            height: self.height,
            scale_milli: self.scale_milli,
        }
    }
}

/// A missing name comes first, the others in the order of their bytes.
pub open spec fn name_precedes(a: Option<Seq<char>>, b: Option<Seq<char>>) -> bool {
    match (a, b) {
        (None, Some(_)) => true,
        (Some(a), Some(b)) => crate::session::roster::precedes(a, b),
        _ => false,
    }
}

impl ReportedMonitor {
    /// The order of monitors: by name, then by place, size and scale.
    pub open spec fn comes_before(self, other: ReportedMonitor) -> bool {
        if self.name != other.name {
            name_precedes(self.name, other.name)
        } else if self.x != other.x {
            self.x < other.x
        } else if self.y != other.y {
            self.y < other.y
        } else if self.width != other.width {
            self.width < other.width
        } else if self.height != other.height {
            self.height < other.height
        } else {
            self.scale_milli < other.scale_milli
        }
    }
}

/// The monitors stand in order, each once.
pub open spec fn is_ordered(monitors: Seq<ReportedMonitor>) -> bool {
    forall|i: int, j: int|
        0 <= i < j < monitors.len() ==> (#[trigger] monitors[i]).comes_before(
            #[trigger] monitors[j],
        )
}

/// `monitors` are the reported ones, in order and each once.
pub open spec fn is_listing(
    monitors: Seq<ReportedMonitor>,
    reported: Seq<ReportedMonitor>,
) -> bool {
    &&& is_ordered(monitors)
    &&& forall|monitor: ReportedMonitor| #[trigger]
        monitors.contains(monitor) <==> reported.contains(monitor)
}

pub open spec fn monitor_views(monitors: Seq<MonitorGeometry>) -> Seq<ReportedMonitor> {
    monitors.map_values(|monitor: MonitorGeometry| monitor@)
}

/// The rectangles that the monitors show.
pub open spec fn rectangles(monitors: Seq<ReportedMonitor>) -> Seq<Rectangle> {
    monitors.map_values(
        |monitor: ReportedMonitor|
            Rectangle {
                x: monitor.x as i64,
                y: monitor.y as i64,
                width: monitor.width as u64,
                height: monitor.height as u64,
            },
    )
}

/// How far a monitor lies to the right of the leftmost one.
pub open spec fn column_of(monitors: Seq<ReportedMonitor>, index: int) -> int {
    monitors[index].x - crate::platform::geometry::left_of(rectangles(monitors))
}

/// How far a monitor lies below the topmost one.
pub open spec fn row_of(monitors: Seq<ReportedMonitor>, index: int) -> int {
    monitors[index].y - crate::platform::geometry::top_of(rectangles(monitors))
}

/// The monitor shows something, at a place that can be written down.
pub open spec fn is_shown(monitors: Seq<ReportedMonitor>, index: int) -> bool {
    &&& monitors[index].width != 0
    &&& monitors[index].height != 0
    &&& monitors[index].scale_milli != 0
    &&& column_of(monitors, index) <= i32::MAX
    &&& row_of(monitors, index) <= i32::MAX
}

pub open spec fn display_of(
    monitors: Seq<ReportedMonitor>,
    index: int,
) -> crate::domain::display::MonitorView {
    crate::domain::display::MonitorView {
        name: monitors[index].name,
        bounds: Rect {
            origin: Point {
                x: column_of(monitors, index) as i32,
                y: row_of(monitors, index) as i32,
            },
            size: Size {
                width: NonZeroU32::of(monitors[index].width),
                height: NonZeroU32::of(monitors[index].height),
            },
        },
        scale_milli: NonZeroU32::of(monitors[index].scale_milli),
        rotation: DisplayRotation::Normal,
    }
}

/// The desktop around the monitors.
pub open spec fn layout_of(monitors: Seq<ReportedMonitor>) -> crate::domain::display::LayoutView {
    let parts = rectangles(monitors);
    crate::domain::display::LayoutView {
        size: Size {
            width: NonZeroU32::of(
                (crate::platform::geometry::right_of(parts) - crate::platform::geometry::left_of(
                    parts,
                )) as u32,
            ),
            height: NonZeroU32::of(
                (crate::platform::geometry::bottom_of(parts) - crate::platform::geometry::top_of(
                    parts,
                )) as u32,
            ),
        },
        monitors: Seq::new(monitors.len(), |i: int| display_of(monitors, i)),
    }
}

/// The monitors form a desktop.
pub open spec fn form_a_desktop(monitors: Seq<ReportedMonitor>) -> bool {
    &&& crate::platform::geometry::geometry_fault(rectangles(monitors)) is None
    &&& forall|i: int| 0 <= i < monitors.len() ==> #[trigger] is_shown(monitors, i)
    &&& layout_of(monitors).is_valid()
}

/// Whether a monitor comes before another.
fn precedes(monitor: &MonitorGeometry, other: &MonitorGeometry) -> (result: bool)
    ensures
        result == monitor@.comes_before(other@),
{
    match (&monitor.name, &other.name) {
        (Some(name), Some(other_name)) => {
            if text_precedes(name.as_str(), other_name.as_str()) {
                proof {
                    crate::session::roster::lemma_precedes_is_irreflexive(name@);
                }
                return true;
            }
            if text_precedes(other_name.as_str(), name.as_str()) {
                proof {
                    crate::session::roster::lemma_precedes_is_irreflexive(name@);
                }
                return false;
            }
            proof {
                if name@ != other_name@ {
                    crate::session::roster::lemma_precedes_is_total(name@, other_name@);
                }
            }
        },
        (None, Some(_)) => {
            return true;
        },
        (Some(_), None) => {
            return false;
        },
        (None, None) => {},
    }
    if monitor.x != other.x {
        monitor.x < other.x
    } else if monitor.y != other.y {
        monitor.y < other.y
    } else if monitor.width != other.width {
        monitor.width < other.width
    } else if monitor.height != other.height {
        monitor.height < other.height
    } else {
        monitor.scale_milli < other.scale_milli
    }
}

proof fn lemma_order_is_total(a: ReportedMonitor, b: ReportedMonitor)
    ensures
        a.comes_before(b) || b.comes_before(a) || a == b,
        !(a.comes_before(b) && b.comes_before(a)),
        !a.comes_before(a),
{
    match (a.name, b.name) {
        (Some(x), Some(y)) => {
            if x != y {
                crate::session::roster::lemma_precedes_is_total(x, y);
            }
        },
        _ => {},
    }
}

proof fn lemma_order_is_transitive(a: ReportedMonitor, b: ReportedMonitor, c: ReportedMonitor)
    requires
        a.comes_before(b),
        b.comes_before(c),
    ensures
        a.comes_before(c),
{
    match (a.name, b.name, c.name) {
        (Some(x), Some(y), Some(z)) => {
            if x != y && y != z {
                crate::session::roster::lemma_precedes_is_transitive(x, y, z);
                if x == z {
                    crate::session::roster::lemma_precedes_is_irreflexive(x);
                }
            }
        },
        _ => {},
    }
}

/// Adds a monitor to others in order, unless it is among them.
fn enter(monitors: &mut Vec<MonitorGeometry>, monitor: MonitorGeometry)
    requires
        is_ordered(monitor_views(old(monitors)@)),
    ensures
        is_ordered(monitor_views(final(monitors)@)),
        forall|other: ReportedMonitor| #[trigger]
            monitor_views(final(monitors)@).contains(other) <==> monitor_views(
                old(monitors)@,
            ).contains(other) || other == monitor@,
{
    let ghost before = monitor_views(monitors@);
    let mut place: usize = 0;
    while place < monitors.len() && precedes(&monitors[place], &monitor)
        invariant
            place <= monitors@.len(),
            before == monitor_views(monitors@),
            forall|i: int| 0 <= i < place ==> (#[trigger] before[i]).comes_before(monitor@),
        decreases monitors@.len() - place,
    {
        assert(before[place as int] == monitors@[place as int]@);
        place += 1;
    }
    proof {
        if place < before.len() {
            assert(before[place as int] == monitors@[place as int]@);
            lemma_order_is_total(before[place as int], monitor@);
        }
    }
    if place < monitors.len() && !precedes(&monitor, &monitors[place]) {
        assert(before.contains(monitor@)) by {
            assert(before[place as int] == monitor@);
        }
        return;
    }
    monitors.insert(place, monitor);
    proof {
        let after = monitor_views(monitors@);
        assert(after =~= before.insert(place as int, monitor@));
        assert forall|i: int| place <= i < before.len() implies monitor@.comes_before(
            #[trigger] before[i],
        ) by {
            if i > place {
                assert(before[place as int].comes_before(before[i]));
                lemma_order_is_transitive(monitor@, before[place as int], before[i]);
            }
        }
        assert forall|i: int, j: int| 0 <= i < j < after.len() implies (
        #[trigger] after[i]).comes_before(#[trigger] after[j]) by {
            let a = if i > place {
                i - 1
            } else {
                i
            };
            let b = if j > place {
                j - 1
            } else {
                j
            };
            if i != place && j != place {
                assert(after[i] == before[a] && after[j] == before[b]);
            } else if i == place {
                assert(after[j] == before[b]);
            } else {
                assert(after[i] == before[a]);
            }
        }
        assert forall|other: ReportedMonitor| #[trigger]
            after.contains(other) <==> before.contains(other) || other == monitor@ by {
            if after.contains(other) {
                let i = choose|i: int| 0 <= i < after.len() && after[i] == other;
                if i < place {
                    assert(before[i] == other);
                } else if i > place {
                    assert(before[i - 1] == other);
                }
            }
            if before.contains(other) {
                let i = choose|i: int| 0 <= i < before.len() && before[i] == other;
                if i < place {
                    assert(after[i] == other);
                } else {
                    assert(after[i + 1] == other);
                }
            }
            assert(after[place as int] == monitor@);
        }
    }
}

/// The reported monitors, in order and each once.
fn listed(reported: &Vec<MonitorGeometry>) -> (monitors: Vec<MonitorGeometry>)
    ensures
        is_listing(monitor_views(monitors@), monitor_views(reported@)),
{
    let ghost views = monitor_views(reported@);
    let mut monitors: Vec<MonitorGeometry> = Vec::new();
    let mut index: usize = 0;
    while index < reported.len()
        invariant
            index <= reported@.len(),
            views == monitor_views(reported@),
            is_listing(monitor_views(monitors@), views.take(index as int)),
        decreases reported@.len() - index,
    {
        let ghost seen = views.take(index as int);
        let ghost next = reported@[index as int]@;
        proof {
            assert(views[index as int] == next);
            assert(views.take(index + 1) =~= seen.push(next));
            assert forall|other: ReportedMonitor| #[trigger]
                seen.push(next).contains(other) <==> seen.contains(other) || other == next by {
                vstd::seq_lib::lemma_seq_contains_after_push(seen, next, other);
            }
        }
        enter(&mut monitors, reported[index].clone());
        index += 1;
    }
    assert(views.take(index as int) =~= views);
    monitors
}

/// A length that is not zero.
fn nonzero(value: u32) -> (result: Option<NonZeroU32>)
    ensures
        match result {
            Some(nonzero) => value != 0 && nonzero == NonZeroU32::of(value) && nonzero@ == value,
            None => value == 0,
        },
{
    let result = NonZeroU32::new(value);
    proof {
        NonZeroU32::lemma_of(value);
        if let Some(nonzero) = result {
            crate::domain::nonzero::lemma_nonzero_u32_identity(nonzero, NonZeroU32::of(value));
        }
    }
    result
}

/// The monitors relative to where the desktop begins.
fn displays(monitors: &Vec<MonitorGeometry>, origin: Point) -> (displays: Option<Vec<Monitor>>)
    requires
        monitors@.len() > 0,
        origin.x == crate::platform::geometry::left_of(rectangles(monitor_views(monitors@))),
        origin.y == crate::platform::geometry::top_of(rectangles(monitor_views(monitors@))),
        forall|i: int|
            0 <= i < monitors@.len() ==> origin.x <= (#[trigger] monitors@[i]).x && origin.y
                <= monitors@[i].y,
    ensures
        match displays {
            Some(displays) => {
                &&& displays@.map_values(|display: Monitor| display@) == Seq::new(
                    monitors@.len(),
                    |i: int| display_of(monitor_views(monitors@), i),
                )
                &&& forall|i: int|
                    0 <= i < monitors@.len() ==> #[trigger] is_shown(
                        monitor_views(monitors@),
                        i,
                    )
            },
            None => exists|i: int|
                0 <= i < monitors@.len() && !#[trigger] is_shown(monitor_views(monitors@), i),
        },
{
    let ghost views = monitor_views(monitors@);
    let mut displays: Vec<Monitor> = Vec::new();
    let mut index: usize = 0;
    while index < monitors.len()
        invariant
            index <= monitors@.len(),
            views == monitor_views(monitors@),
            origin.x == crate::platform::geometry::left_of(rectangles(views)),
            origin.y == crate::platform::geometry::top_of(rectangles(views)),
            forall|i: int|
                0 <= i < monitors@.len() ==> origin.x <= (#[trigger] monitors@[i]).x && origin.y
                    <= monitors@[i].y,
            displays@.len() == index,
            forall|i: int|
                0 <= i < index ==> (#[trigger] displays@[i])@ == display_of(views, i),
            forall|i: int| 0 <= i < index ==> #[trigger] is_shown(views, i),
        decreases monitors@.len() - index,
    {
        let monitor = &monitors[index];
        assert(views[index as int] == monitor@);
        let ghost shown = is_shown(views, index as int);
        let column: i64 = monitor.x as i64 - origin.x as i64;
        let row: i64 = monitor.y as i64 - origin.y as i64;
        if column > i32::MAX as i64 || row > i32::MAX as i64 {
            assert(!is_shown(views, index as int));
            return None;
        }
        let (width, height, scale) = match (
            nonzero(monitor.width),
            nonzero(monitor.height),
            nonzero(monitor.scale_milli),
        ) {
            (Some(width), Some(height), Some(scale)) => (width, height, scale),
            _ => {
                assert(!is_shown(views, index as int));
                return None;
            },
        };
        let name = match &monitor.name {
            Some(name) => Some(name.clone()),
            None => None,
        };
        let mut display = Monitor::new(
            name,
            Rect::new(Point { x: column as i32, y: row as i32 }, Size::new(width, height)),
        );
        display.scale_milli = scale;
        assert(display@ == display_of(views, index as int));
        displays.push(display);
        index += 1;
    }
    assert(displays@.map_values(|display: Monitor| display@) =~= Seq::new(
        monitors@.len(),
        |i: int| display_of(views, i),
    ));
    Some(displays)
}

proof fn lemma_outline_holds_corner(parts: Seq<Rectangle>, index: int)
    requires
        0 <= index < parts.len(),
    ensures
        crate::platform::geometry::left_of(parts) <= parts[index].x,
        crate::platform::geometry::top_of(parts) <= parts[index].y,
    decreases parts.len(),
{
    if parts.len() > 1 && index < parts.len() - 1 {
        lemma_outline_holds_corner(parts.drop_last(), index);
        assert(parts.drop_last()[index] == parts[index]);
    }
}

/// The desktop that the reported monitors form, if they do. How often and in
/// which order they are reported does not matter.
pub fn aggregate_monitor_geometry(reported: &Vec<MonitorGeometry>) -> (desktop: Option<
    LocalDesktop,
>)
    ensures
        exists|monitors: Seq<ReportedMonitor>|
            {
                &&& #[trigger] is_listing(monitors, monitor_views(reported@))
                &&& match desktop {
                    Some(desktop) => {
                        &&& form_a_desktop(monitors)
                        &&& desktop.origin.x == crate::platform::geometry::left_of(
                            rectangles(monitors),
                        )
                        &&& desktop.origin.y == crate::platform::geometry::top_of(
                            rectangles(monitors),
                        )
                        &&& desktop.layout@ == layout_of(monitors)
                    },
                    None => !form_a_desktop(monitors),
                }
            },
{
    let monitors = listed(reported);
    let ghost views = monitor_views(monitors@);
    let mut parts: Vec<Rectangle> = Vec::new();
    let mut index: usize = 0;
    while index < monitors.len()
        invariant
            index <= monitors@.len(),
            views == monitor_views(monitors@),
            parts@.len() == index,
            forall|i: int| 0 <= i < index ==> #[trigger] parts@[i] == rectangles(views)[i],
        decreases monitors@.len() - index,
    {
        let monitor = &monitors[index];
        assert(views[index as int] == monitor@);
        parts.push(
            Rectangle {
                x: monitor.x as i64,
                y: monitor.y as i64,
                width: monitor.width as u64,
                height: monitor.height as u64,
            },
        );
        index += 1;
    }
    assert(parts@ =~= rectangles(views));
    assert(is_listing(views, monitor_views(reported@)));
    let geometry = match geometry_from_rectangles(&parts) {
        Ok(geometry) => geometry,
        Err(_) => {
            return None;
        },
    };
    proof {
        assert forall|i: int| 0 <= i < monitors@.len() implies geometry.origin.x <= (
        #[trigger] monitors@[i]).x && geometry.origin.y <= monitors@[i].y by {
            lemma_outline_holds_corner(parts@, i);
            assert(views[i] == monitors@[i]@);
        }
    }
    let displays = match displays(&monitors, geometry.origin) {
        Some(displays) => displays,
        None => {
            return None;
        },
    };
    let ghost layout = layout_of(views);
    proof {
        NonZeroU32::lemma_of(geometry.size.width@);
        NonZeroU32::lemma_of(geometry.size.height@);
        crate::domain::nonzero::lemma_nonzero_u32_identity(
            geometry.size.width,
            NonZeroU32::of(geometry.size.width@),
        );
        crate::domain::nonzero::lemma_nonzero_u32_identity(
            geometry.size.height,
            NonZeroU32::of(geometry.size.height@),
        );
        assert(geometry.size == layout.size);
    }
    match DesktopLayout::new(geometry.size, displays) {
        Ok(layout) => Some(LocalDesktop { origin: geometry.origin, layout }),
        Err(_) => None,
    }
}

/// The monitors that are listed do not depend on the order in which they are
/// reported, nor on how often.
pub proof fn law_monitors_are_a_set(
    a: Seq<ReportedMonitor>,
    b: Seq<ReportedMonitor>,
    reported: Seq<ReportedMonitor>,
    repeated: Seq<ReportedMonitor>,
)
    requires
        is_listing(a, reported),
        is_listing(b, repeated),
        forall|monitor: ReportedMonitor| #[trigger]
            reported.contains(monitor) <==> repeated.contains(monitor),
    ensures
        a == b,
{
    assert forall|monitor: ReportedMonitor| #[trigger] a.contains(monitor) <==> b.contains(
        monitor,
    ) by {
        assert(reported.contains(monitor) <==> repeated.contains(monitor));
    }
    lemma_ordered_agree(
        a,
        b,
        if a.len() <= b.len() {
            a.len() as int
        } else {
            b.len() as int
        },
    );
    lemma_no_longer(a, b);
    lemma_no_longer(b, a);
    assert(a =~= b);
}

proof fn lemma_no_longer(a: Seq<ReportedMonitor>, b: Seq<ReportedMonitor>)
    requires
        is_ordered(b),
        forall|i: int| 0 <= i < a.len() && i < b.len() ==> #[trigger] a[i] == b[i],
        forall|monitor: ReportedMonitor| #[trigger] a.contains(monitor) <==> b.contains(monitor),
    ensures
        b.len() <= a.len(),
{
    if a.len() < b.len() {
        let extra = b[a.len() as int];
        assert(b.contains(extra));
        assert(a.contains(extra));
        let i = choose|i: int| 0 <= i < a.len() && a[i] == extra;
        assert(b[i].comes_before(extra));
        lemma_order_is_total(extra, extra);
    }
}

proof fn lemma_ordered_agree(a: Seq<ReportedMonitor>, b: Seq<ReportedMonitor>, count: int)
    requires
        is_ordered(a),
        is_ordered(b),
        0 <= count <= a.len(),
        count <= b.len(),
        forall|monitor: ReportedMonitor| #[trigger] a.contains(monitor) <==> b.contains(monitor),
    ensures
        forall|i: int| 0 <= i < count ==> #[trigger] a[i] == b[i],
    decreases count,
{
    if count > 0 {
        let last = count - 1;
        lemma_ordered_agree(a, b, last);
        if a[last] != b[last] {
            assert(a.contains(a[last]) && b.contains(b[last]));
            assert(b.contains(a[last]) && a.contains(b[last]));
            let j = choose|j: int| 0 <= j < b.len() && b[j] == a[last];
            let k = choose|k: int| 0 <= k < a.len() && a[k] == b[last];
            lemma_order_is_total(a[last], b[last]);
            lemma_order_is_total(a[last], a[last]);
            lemma_order_is_total(b[last], b[last]);
            if j < last {
                assert(a[j] == b[j]);
                assert(a[j].comes_before(a[last]));
            } else if k < last {
                assert(a[k] == b[k]);
                assert(b[k].comes_before(b[last]));
            } else {
                assert(b[last].comes_before(b[j]));
                assert(a[last].comes_before(a[k]));
            }
        }
    }
}

/// Reported monitors lie on the desktop as they lie to each other, with no empty
/// column or row before the first, in the size and scale they have.
pub proof fn law_monitors_keep_their_places(monitors: Seq<ReportedMonitor>, i: int, j: int)
    requires
        form_a_desktop(monitors),
        0 <= i < monitors.len(),
        0 <= j < monitors.len(),
    ensures
        ({
            let shown = layout_of(monitors).monitors;
            &&& shown.len() == monitors.len()
            &&& shown[i].bounds.origin.x - shown[j].bounds.origin.x == monitors[i].x
                - monitors[j].x
            &&& shown[i].bounds.origin.y - shown[j].bounds.origin.y == monitors[i].y
                - monitors[j].y
            &&& shown[i].bounds.size.width@ == monitors[i].width
            &&& shown[i].bounds.size.height@ == monitors[i].height
            &&& shown[i].scale_milli@ == monitors[i].scale_milli
            &&& shown[i].name == monitors[i].name
            &&& shown[i].bounds.origin.x >= 0 && shown[i].bounds.origin.y >= 0
            &&& exists|k: int|
                0 <= k < shown.len() && (#[trigger] shown[k]).bounds.origin.x == 0
            &&& exists|k: int|
                0 <= k < shown.len() && (#[trigger] shown[k]).bounds.origin.y == 0
        }),
{
    let parts = rectangles(monitors);
    let shown = layout_of(monitors).monitors;
    crate::platform::surroundings::law_outlines_end_with_a_part(parts);
    assert(is_shown(monitors, i) && is_shown(monitors, j));
    assert(parts[i].x == monitors[i].x && parts[i].y == monitors[i].y);
    assert(parts[j].x == monitors[j].x && parts[j].y == monitors[j].y);
    NonZeroU32::lemma_of(monitors[i].width);
    NonZeroU32::lemma_of(monitors[i].height);
    NonZeroU32::lemma_of(monitors[i].scale_milli);
    let a = choose|k: int|
        0 <= k < parts.len() && (#[trigger] parts[k]).x == crate::platform::geometry::left_of(
            parts,
        );
    let b = choose|k: int|
        0 <= k < parts.len() && (#[trigger] parts[k]).y == crate::platform::geometry::top_of(parts);
    assert(shown[a].bounds.origin.x == 0) by {
        assert(parts[a].x == monitors[a].x);
    }
    assert(shown[b].bounds.origin.y == 0) by {
        assert(parts[b].y == monitors[b].y);
    }
}

/// Of two different monitors exactly one comes first: a named one after one without
/// a name, then the one further left, then the one further up.
pub proof fn law_monitors_have_an_order(a: ReportedMonitor, b: ReportedMonitor)
    ensures
        a != b ==> a.comes_before(b) != b.comes_before(a),
        !a.comes_before(a),
        a.name is None && b.name is Some ==> a.comes_before(b),
        a.name == b.name && a.x < b.x ==> a.comes_before(b),
        a.name == b.name && a.x == b.x && a.y < b.y ==> a.comes_before(b),
        a.name == b.name && a.x == b.x && a.y == b.y && a.width < b.width ==> a.comes_before(b),
{
    if a != b {
        lemma_order_is_total(a, b);
    }
}

} // verus!
