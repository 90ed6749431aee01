//! What the configuration page shows of a machine and of the edges.

use vstd::prelude::*;
use vstd::string::*;

use crate::config::EdgeRule;
use crate::domain::display::{DesktopLayout, Monitor};
use crate::editor::geometry::AlignmentAxis;
use crate::text::push_decimal;
use crate::window::labels::rotation_label;

verus! {

/// A monitor in one line. One without a name goes by its number.
pub open spec fn monitor_line(
    monitor: crate::domain::display::MonitorView,
    number: nat,
) -> Seq<char> {
    (match monitor.name {
        Some(name) => name,
        None => "Display "@ + crate::text::decimal(number),
    }) + ": "@ + crate::text::decimal(monitor.bounds.size.width@ as nat) + " x "@
        + crate::text::decimal(monitor.bounds.size.height@ as nat) + " at "@
        + crate::text::decimal((monitor.scale_milli@ / 10) as nat) + "%, "@
        + crate::window::labels::rotation_text(monitor.rotation)
}

fn describe_monitor(monitor: &Monitor, number: u64) -> (line: String)
    ensures
        line@ == monitor_line(monitor@, number as nat),
{
    let mut line = match &monitor.name {
        Some(name) => name.clone(),
        None => {
            let mut name = "Display ".to_owned();
            push_decimal(&mut name, number);
            name
        },
    };
    line.append(": ");
    push_decimal(&mut line, monitor.bounds.size.width.get() as u64);
    line.append(" x ");
    push_decimal(&mut line, monitor.bounds.size.height.get() as u64);
    line.append(" at ");
    push_decimal(&mut line, (monitor.scale_milli.get() / 10) as u64);
    line.append("%, ");
    line.append(rotation_label(monitor.rotation));
    line
}

/// The monitors of a desktop, one line for each.
pub fn monitor_lines(layout: &DesktopLayout) -> (lines: Vec<String>)
    ensures
        lines@.map_values(|line: String| line@) == Seq::new(
            layout@.monitors.len(),
            |i: int| monitor_line(layout@.monitors[i], (i + 1) as nat),
        ),
{
    let monitors = layout.monitors();
    let ghost views = layout@.monitors;
    let mut lines: Vec<String> = Vec::new();
    let mut index: usize = 0;
    while index < monitors.len()
        invariant
            index <= monitors@.len(),
            views == monitors@.map_values(|monitor: Monitor| monitor@),
            lines@.len() == index,
            forall|i: int|
                0 <= i < index ==> (#[trigger] lines@[i])@ == monitor_line(
                    views[i],
                    (i + 1) as nat,
                ),
        decreases monitors@.len() - index,
    {
        assert(views[index as int] == monitors@[index as int]@);
        lines.push(describe_monitor(&monitors[index], index as u64 + 1));
        index += 1;
    }
    assert(lines@.map_values(|line: String| line@) =~= Seq::new(
        views.len(),
        |i: int| monitor_line(views[i], (i + 1) as nat),
    ));
    lines
}

/// The names of the three alignments along an axis.
pub fn alignment_labels(axis: AlignmentAxis) -> (labels: (
    &'static str,
    &'static str,
    &'static str,
))
    ensures
        (labels.0@, labels.1@, labels.2@) == match axis {
            AlignmentAxis::Vertical(_) => ("Top"@, "Center"@, "Bottom"@),
            AlignmentAxis::Horizontal(_) => ("Left"@, "Center"@, "Right"@),
        },
{
    match axis {
        AlignmentAxis::Vertical(_) => ("Top", "Center", "Bottom"),
        AlignmentAxis::Horizontal(_) => ("Left", "Center", "Right"),
    }
}

/// The largest start and the smallest end that the active range of an edge can
/// take while the other stays.
pub fn range_limits(rule: EdgeRule) -> (limits: (u8, u8))
    ensures
        limits.0 == if rule.active_end_percent > 0 {
            rule.active_end_percent - 1
        } else {
            0
        },
        limits.1 == if rule.active_start_percent < u8::MAX {
            rule.active_start_percent + 1
        } else {
            u8::MAX as int
        },
{
    let maximum_start: u8 = if rule.active_end_percent > 0 {
        rule.active_end_percent - 1
    } else {
        0
    };
    let minimum_end: u8 = if rule.active_start_percent < u8::MAX {
        rule.active_start_percent + 1
    } else {
        u8::MAX
    };
    (maximum_start, minimum_end)
}

} // verus!
