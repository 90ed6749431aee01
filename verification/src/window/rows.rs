//! The rows of the status page.

use vstd::prelude::*;
use vstd::string::*;

use crate::domain::identity::NodeId;
use crate::runtime::event::RuntimeRole;
use crate::text::{decimal_text, push_decimal};
use crate::window::labels::push_counted;
use crate::window::status::{RemoteDisplay, SessionState, Tone};

verus! {

/// A row: what it is about, and how it stands.
#[derive(Debug)]
pub struct Metric {
    pub label: String,
    pub value: String,
    pub tone: Tone,
}

pub ghost struct MetricView {
    pub label: Seq<char>,
    pub value: Seq<char>,
    pub tone: Tone,
}

impl View for Metric {
    type V = MetricView;

    open spec fn view(&self) -> MetricView {
        MetricView { label: self.label@, value: self.value@, tone: self.tone }
    }
}

pub open spec fn metric_views(rows: Seq<Metric>) -> Seq<MetricView> {
    rows.map_values(|row: Metric| row@)
}

pub open spec fn row(label: Seq<char>, value: Seq<char>, tone: Tone) -> MetricView {
    MetricView { label, value, tone }
}

/// How the native input service stands.
#[derive(Clone, Copy, Debug, PartialEq, Eq, Structural)]
pub enum NativeService {
    NotStarted,
    Requesting,
    Ready,
    Closed,
}

pub open spec fn native_status(available: bool, service: NativeService) -> (Seq<char>, Tone) {
    if !available {
        ("Unavailable"@, Tone::Danger)
    } else {
        match service {
            NativeService::Ready => ("Granted"@, Tone::Success),
            NativeService::Closed => ("Closed"@, Tone::Danger),
            NativeService::Requesting => ("Requesting"@, Tone::Warning),
            NativeService::NotStarted => ("Not started"@, Tone::Warning),
        }
    }
}

/// How the permission for native input is shown.
pub fn native_input_status(available: bool, service: NativeService) -> (status: (
    &'static str,
    Tone,
))
    ensures
        (status.0@, status.1) == native_status(available, service),
{
    if !available {
        return ("Unavailable", Tone::Danger);
    }
    match service {
        NativeService::Ready => ("Granted", Tone::Success),
        NativeService::Closed => ("Closed", Tone::Danger),
        NativeService::Requesting => ("Requesting", Tone::Warning),
        NativeService::NotStarted => ("Not started", Tone::Warning),
    }
}

/// The desktop of a node in words.
pub open spec fn desktop_text(display: RemoteDisplay) -> Seq<char> {
    crate::text::decimal(display.size.width@ as nat) + " x "@ + crate::text::decimal(
        display.size.height@ as nat,
    ) + " | "@ + crate::window::labels::counted(display.monitor_count as nat, "display"@)
}

/// The rows of connected agents.
pub open spec fn agent_rows(
    nodes: Seq<Seq<char>>,
    displays: Map<Seq<char>, RemoteDisplay>,
) -> Seq<MetricView>
    decreases nodes.len(),
{
    if nodes.len() == 0 {
        Seq::empty()
    } else {
        let node = nodes.last();
        let named = agent_rows(nodes.drop_last(), displays).push(
            row("Agent"@, node, Tone::Success),
        );
        if displays.dom().contains(node) {
            named.push(row(node + " desktop"@, desktop_text(displays[node]), Tone::Plain))
        } else {
            named
        }
    }
}

/// Who is connected, in order.
pub open spec fn connected_nodes(state: crate::window::status::StatusView) -> Seq<Seq<char>> {
    crate::session::roster::sorted_listing(state.connected.dom())
}

pub open spec fn tone_of_connections(connected: bool) -> Tone {
    if connected {
        Tone::Success
    } else {
        Tone::Warning
    }
}

/// The rows of a controller.
pub open spec fn controller_rows(state: crate::window::status::StatusView) -> Seq<MetricView> {
    let nodes = connected_nodes(state);
    seq![
        row(
            "Connected agents"@,
            crate::text::decimal(nodes.len()),
            tone_of_connections(nodes.len() > 0),
        ),
        if state.controls_remote() {
            row("Control target"@, state.focus->0, Tone::Accent)
        } else {
            row("Control target"@, "Local desktop"@, Tone::Plain)
        },
    ] + agent_rows(nodes, state.displays)
}

/// The rows of an agent.
pub open spec fn agent_side_rows(state: crate::window::status::StatusView) -> Seq<MetricView> {
    let nodes = connected_nodes(state);
    seq![
        row(
            "Controller"@,
            if nodes.len() > 0 {
                nodes[0]
            } else {
                "Not connected"@
            },
            tone_of_connections(nodes.len() > 0),
        ),
        if state.agent_controlled {
            row("Remote input"@, "Being controlled"@, Tone::Accent)
        } else if nodes.len() == 0 {
            row("Remote input"@, "Disconnected"@, Tone::Warning)
        } else {
            row("Remote input"@, "Connected, idle"@, Tone::Success)
        },
    ]
}

/// The rows about the running session.
pub open spec fn session_rows_of(
    state: crate::window::status::StatusView,
    available: bool,
    service: NativeService,
) -> Seq<MetricView> {
    let (phase, phase_tone) = crate::window::status::phase_label(state.phase);
    let (native, native_tone) = native_status(available, service);
    seq![
        row("State"@, phase, phase_tone),
        row("Native permission"@, native, native_tone),
        if state.clipboard_ready {
            row("Text clipboard"@, "Ready"@, Tone::Success)
        } else {
            row("Text clipboard"@, "Waiting"@, Tone::Muted)
        },
    ] + match state.role {
        Some(RuntimeRole::Controller) => controller_rows(state),
        Some(RuntimeRole::Agent) => agent_side_rows(state),
        None => Seq::empty(),
    }
}

fn add_row(rows: &mut Vec<Metric>, label: &str, value: &str, tone: Tone)
    ensures
        metric_views(final(rows)@) == metric_views(old(rows)@).push(row(label@, value@, tone)),
{
    let ghost before = metric_views(rows@);
    rows.push(Metric { label: label.to_owned(), value: value.to_owned(), tone });
    assert(metric_views(rows@) =~= before.push(row(label@, value@, tone)));
}

fn connection_tone(connected: bool) -> (tone: Tone)
    ensures
        tone == tone_of_connections(connected),
{
    if connected {
        Tone::Success
    } else {
        Tone::Warning
    }
}

fn desktop_value(display: RemoteDisplay) -> (value: String)
    ensures
        value@ == desktop_text(display),
{
    let mut value = decimal_text(display.size.width.get() as u64);
    value.append(" x ");
    push_decimal(&mut value, display.size.height.get() as u64);
    value.append(" | ");
    push_counted(&mut value, display.monitor_count as u64, "display");
    value
}

/// The connected nodes, in order.
fn listed(state: &SessionState) -> (nodes: Vec<NodeId>)
    ensures
        crate::session::roster::node_views(nodes@) == connected_nodes(state@),
{
    let nodes = state.connected.nodes();
    proof {
        crate::session::roster::law_sorted_listing_is_unique(
            crate::session::roster::node_views(nodes@),
            state@.connected.dom(),
        );
    }
    nodes
}

fn add_controller_rows(rows: &mut Vec<Metric>, state: &SessionState)
    ensures
        metric_views(final(rows)@) == metric_views(old(rows)@) + controller_rows(state@),
{
    let ghost before = metric_views(rows@);
    let nodes = listed(state);
    let ghost views = crate::session::roster::node_views(nodes@);
    assert(views.len() == nodes@.len());
    add_row(
        rows,
        "Connected agents",
        decimal_text(nodes.len() as u64).as_str(),
        connection_tone(nodes.len() > 0),
    );
    match &state.focus {
        Some(node) => if state.connected.get(node).is_some() {
            add_row(rows, "Control target", node.as_str(), Tone::Accent)
        } else {
            add_row(rows, "Control target", "Local desktop", Tone::Plain)
        },
        None => add_row(rows, "Control target", "Local desktop", Tone::Plain),
    }
    let ghost first = metric_views(rows@);
    let mut index: usize = 0;
    proof {
        assert(views.take(0) =~= Seq::<Seq<char>>::empty());
        assert(first =~= first + agent_rows(views.take(0), state@.displays));
    }
    while index < nodes.len()
        invariant
            index <= nodes@.len(),
            views == crate::session::roster::node_views(nodes@),
            metric_views(rows@) == first + agent_rows(views.take(index as int), state@.displays),
        decreases nodes@.len() - index,
    {
        let node = &nodes[index];
        proof {
            let longer = views.take(index + 1);
            assert(longer.drop_last() =~= views.take(index as int));
            assert(longer.last() == node@);
        }
        add_row(rows, "Agent", node.as_str(), Tone::Success);
        if let Some(display) = state.displays.get(node) {
            let mut label = node.as_str().to_owned();
            label.append(" desktop");
            add_row(rows, label.as_str(), desktop_value(display).as_str(), Tone::Plain);
        }
        assert(metric_views(rows@) =~= first + agent_rows(
            views.take(index + 1),
            state@.displays,
        ));
        index += 1;
    }
    assert(views.take(index as int) =~= views);
    assert(metric_views(rows@) =~= before + controller_rows(state@));
}

fn add_agent_side_rows(rows: &mut Vec<Metric>, state: &SessionState)
    ensures
        metric_views(final(rows)@) == metric_views(old(rows)@) + agent_side_rows(state@),
{
    let ghost before = metric_views(rows@);
    let nodes = listed(state);
    let ghost views = crate::session::roster::node_views(nodes@);
    assert(views.len() == nodes@.len());
    let tone = connection_tone(nodes.len() > 0);
    if nodes.len() > 0 {
        assert(views[0] == nodes@[0]@);
        add_row(rows, "Controller", nodes[0].as_str(), tone);
    } else {
        add_row(rows, "Controller", "Not connected", tone);
    }
    if state.agent_controlled {
        add_row(rows, "Remote input", "Being controlled", Tone::Accent);
    } else if nodes.len() == 0 {
        add_row(rows, "Remote input", "Disconnected", Tone::Warning);
    } else {
        add_row(rows, "Remote input", "Connected, idle", Tone::Success);
    }
    assert(metric_views(rows@) =~= before + agent_side_rows(state@));
}

/// The rows about the running session.
pub fn session_rows(state: &SessionState, available: bool, service: NativeService) -> (rows: Vec<
    Metric,
>)
    ensures
        metric_views(rows@) == session_rows_of(state@, available, service),
{
    let mut rows: Vec<Metric> = Vec::new();
    assert(metric_views(rows@) =~= Seq::<MetricView>::empty());
    let (phase, phase_tone) = state.status();
    add_row(&mut rows, "State", phase, phase_tone);
    let (native, native_tone) = native_input_status(available, service);
    add_row(&mut rows, "Native permission", native, native_tone);
    if state.clipboard_ready {
        add_row(&mut rows, "Text clipboard", "Ready", Tone::Success);
    } else {
        add_row(&mut rows, "Text clipboard", "Waiting", Tone::Muted);
    }
    match state.role {
        Some(RuntimeRole::Controller) => add_controller_rows(&mut rows, state),
        Some(RuntimeRole::Agent) => add_agent_side_rows(&mut rows, state),
        None => {},
    }
    assert(metric_views(rows@) =~= session_rows_of(state@, available, service));
    rows
}

/// The rows about what a session needs.
pub open spec fn readiness_rows_of(
    available: bool,
    trusted: nat,
    nearby: nat,
    discovering: bool,
    connected: bool,
) -> Seq<MetricView> {
    seq![
        if available {
            row("Desktop environment"@, "Available"@, Tone::Success)
        } else {
            row("Desktop environment"@, "Unavailable"@, Tone::Danger)
        },
        row("Trusted nodes"@, crate::text::decimal(trusted), tone_of_connections(trusted > 0)),
        row(
            "Nearby nodes"@,
            crate::text::decimal(nearby),
            if discovering {
                Tone::Accent
            } else {
                Tone::Danger
            },
        ),
        if connected {
            row("Secure transport"@, "Authenticated"@, Tone::Success)
        } else {
            row("Secure transport"@, "Disconnected"@, Tone::Warning)
        },
    ]
}

/// The rows about what a session needs.
pub fn readiness_rows(
    available: bool,
    trusted: usize,
    nearby: usize,
    discovering: bool,
    state: &SessionState,
) -> (rows: Vec<Metric>)
    ensures
        metric_views(rows@) == readiness_rows_of(
            available,
            trusted as nat,
            nearby as nat,
            discovering,
            state@.connected != Map::<Seq<char>, u128>::empty(),
        ),
{
    let mut rows: Vec<Metric> = Vec::new();
    assert(metric_views(rows@) =~= Seq::<MetricView>::empty());
    if available {
        add_row(&mut rows, "Desktop environment", "Available", Tone::Success);
    } else {
        add_row(&mut rows, "Desktop environment", "Unavailable", Tone::Danger);
    }
    add_row(
        &mut rows,
        "Trusted nodes",
        decimal_text(trusted as u64).as_str(),
        connection_tone(trusted > 0),
    );
    add_row(
        &mut rows,
        "Nearby nodes",
        decimal_text(nearby as u64).as_str(),
        if discovering {
            Tone::Accent
        } else {
            Tone::Danger
        },
    );
    if state.connected.is_empty() {
        add_row(&mut rows, "Secure transport", "Disconnected", Tone::Warning);
    } else {
        add_row(&mut rows, "Secure transport", "Authenticated", Tone::Success);
    }
    assert(metric_views(rows@) =~= readiness_rows_of(
        available,
        trusted as nat,
        nearby as nat,
        discovering,
        state@.connected != Map::<Seq<char>, u128>::empty(),
    ));
    rows
}

} // verus!
