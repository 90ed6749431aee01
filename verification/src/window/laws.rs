//! What holds of what the window shows.

use vstd::prelude::*;

use crate::discovery::address::IpAddress;
use crate::editor::screen::ScreenEditorView;
use crate::runtime::event::{EventView, RuntimeRole};
use crate::window::model::ModelView;
use crate::window::notice::NoticeView;
use crate::window::rows::{MetricView, NativeService};
use crate::window::status::{RemoteDisplay, SessionPhase, StatusView, Tone};

verus! {

/// Who is connected follows the events: a node that connects is, in its session; one
/// that goes away is not; and nobody else is affected.
pub proof fn law_connections_follow_the_events(
    state: StatusView,
    peer: Seq<char>,
    session_id: u128,
    reason: Seq<char>,
    other: Seq<char>,
)
    requires
        other != peer,
    ensures
        ({
            let joined = state.after(EventView::Connected { peer, session_id });
            let left = joined.after(EventView::Disconnected { peer, reason });
            &&& joined.connected.dom().contains(peer)
            &&& joined.connected[peer] == session_id
            &&& joined.phase is Connected
            &&& joined.last_error is None
            &&& joined.displays == state.displays
            &&& joined.focus == state.focus
            &&& joined.role == state.role
            &&& !left.connected.dom().contains(peer)
            &&& !left.displays.dom().contains(peer)
            &&& left.last_error == Some(peer + ": "@ + reason)
            &&& left.role == state.role
            &&& left.phase is Listening <==> state.role == Some(RuntimeRole::Controller)
            &&& left.phase is Connecting <==> state.role == Some(RuntimeRole::Agent)
            &&& left.phase is Stopped <==> state.role is None
            &&& joined.connected.dom().contains(other) == state.connected.dom().contains(other)
            &&& joined.connected[other] == state.connected[other]
            &&& left.connected.dom().contains(other) == state.connected.dom().contains(other)
            &&& left.displays.dom().contains(other) == state.displays.dom().contains(other)
            &&& left.displays[other] == state.displays[other]
        }),
{
}

/// A session that starts knows its role and nothing else, whatever was before.
pub proof fn law_sessions_start_afresh(state: StatusView, other: StatusView, role: RuntimeRole)
    ensures
        ({
            let after = state.after(EventView::Starting { role });
            &&& after == other.after(EventView::Starting { role })
            &&& after.phase is Starting
            &&& after.role == Some(role)
            &&& after.connected.dom() == Set::<Seq<char>>::empty()
            &&& after.displays.dom() == Set::<Seq<char>>::empty()
            &&& after.focus is None
            &&& !after.agent_controlled && !after.native_ready && !after.clipboard_ready
            &&& after.last_error is None
        }),
{
}

/// The focus is on another node exactly where the node that got it is connected.
pub proof fn law_focus_is_remote_where_connected(state: StatusView, node: Seq<char>)
    ensures
        ({
            let after = state.after(EventView::FocusChanged { node });
            &&& after.focus == Some(node)
            &&& after.controls_remote() <==> state.connected.dom().contains(node)
            &&& after.connected == state.connected
            &&& after.phase == state.phase
        }),
{
}

/// What is told of the services and of being controlled is shown, and nothing else
/// changes with it.
pub proof fn law_services_are_shown(
    state: StatusView,
    controller: Seq<char>,
    active: bool,
    backend: crate::platform::report::BackendKind,
)
    ensures
        ({
            let native = state.after(EventView::NativeReady { backend });
            let clipboard = state.after(EventView::ClipboardReady { backend });
            let control = state.after(EventView::AgentControl { controller, active });
            &&& native.native_ready && native.clipboard_ready == state.clipboard_ready
            &&& clipboard.clipboard_ready && clipboard.native_ready == state.native_ready
            &&& control.agent_controlled == active
            &&& native.agent_controlled == state.agent_controlled
            &&& clipboard.agent_controlled == state.agent_controlled
            &&& native.phase == state.phase && clipboard.phase == state.phase && control.phase
                == state.phase
            &&& native.connected == state.connected && clipboard.connected == state.connected
                && control.connected == state.connected
        }),
{
}

/// An error is shown. It makes a session that is not running a failed one and
/// leaves one that runs as it is.
pub proof fn law_errors_are_shown(state: StatusView, message: Seq<char>)
    ensures
        ({
            let after = state.after(EventView::Error { message });
            &&& after.last_error == Some(message)
            &&& state.phase is Stopped ==> after.phase is Failed
            &&& !(state.phase is Stopped) ==> after.phase == state.phase
            &&& after.connected == state.connected
            &&& after.displays == state.displays
        }),
{
}

/// The desktop of a node is shown with its size and its number of monitors, and
/// those of the others stay.
pub proof fn law_desktops_are_shown(
    state: StatusView,
    screen: crate::domain::arrangement::PlacementView,
    monitor_count: u32,
    other: Seq<char>,
)
    requires
        other != screen.node,
    ensures
        ({
            let after = state.after(EventView::DisplayChanged { screen, monitor_count });
            &&& after.displays.dom().contains(screen.node)
            &&& after.displays[screen.node].size == screen.bounds.size
            &&& after.displays[screen.node].monitor_count == monitor_count
            &&& after.displays.dom().contains(other) == state.displays.dom().contains(other)
            &&& after.displays[other] == state.displays[other]
            &&& after.connected == state.connected
        }),
{
}

/// Different phases are shown in different words, and only a failed one as a
/// danger, only a connected one as a success.
pub proof fn law_phases_are_told_apart(a: SessionPhase, b: SessionPhase)
    ensures
        crate::window::status::phase_label(a).0 == crate::window::status::phase_label(b).0 <==> a
            == b,
        crate::window::status::phase_label(a).1 is Danger <==> a is Failed,
        crate::window::status::phase_label(a).1 is Success <==> a is Connected,
        crate::window::status::phase_label(a).1 is Muted <==> a is Stopped,
        crate::window::status::phase_label(a).1 is Warning <==> a is Starting || a is Connecting,
{
    reveal_strlit("Stopped");
    reveal_strlit("Starting");
    reveal_strlit("Listening");
    reveal_strlit("Connecting");
    reveal_strlit("Connected");
    reveal_strlit("Failed");
    assert("Starting"@[8 - 1] == 'g');
    let first = crate::window::status::phase_label(a).0;
    let second = crate::window::status::phase_label(b).0;
    if a != b {
        assert(first.len() != second.len() || first[0] != second[0] || first[6] != second[6]
            || first[1] != second[1]);
    }
}

/// Only errors are noticed as a danger. What came from a node and what went to one
/// are told apart, and a change of focus is noticed where it leads to a connected
/// node.
pub proof fn law_notices_have_their_tone(
    event: EventView,
    state: StatusView,
)
    ensures
        ({
            let notice = crate::window::notice::notice_of(event, state);
            &&& notice matches Some(shown) ==> (shown.tone is Danger <==> event is Error)
            &&& event matches EventView::Error { message } ==> notice == Some(
                NoticeView { message, tone: Tone::Danger },
            )
            &&& event matches EventView::FocusChanged { node } ==> (notice is Some
                <==> state.connected.dom().contains(node))
            &&& event matches EventView::AgentControl { controller, active } ==> (notice is Some
                <==> active)
            &&& event matches EventView::Connected { peer, session_id } ==> notice == Some(
                NoticeView { message: "Connected to "@ + peer, tone: Tone::Success },
            )
            &&& event matches EventView::ClipboardSynchronized { peer, received } ==> notice
                == Some(
                NoticeView {
                    message: if received {
                        "Clipboard received from "@
                    } else {
                        "Clipboard sent to "@
                    } + peer,
                    tone: Tone::Accent,
                },
            )
            &&& (event is Stopped || event is Starting || event is Listening || event is Connecting
                || event is Disconnected || event is NativeReady) ==> notice is None
        }),
{
}

/// A time is shown in minutes, seconds under 60 and thousandths under 1000, which
/// together are that time.
pub proof fn law_times_are_shown_in_full(millis: nat, minutes: nat, seconds: nat, rest: nat)
    requires
        seconds < 60,
        rest < 1000,
        millis == minutes * 60_000 + seconds * 1_000 + rest,
    ensures
        crate::window::labels::elapsed_text(millis) == "+"@ + crate::window::labels::padded(
            minutes,
            2,
        ) + ":"@ + crate::window::labels::padded(seconds, 2) + "."@
            + crate::window::labels::padded(rest, 3),
{
    assert(millis / 60_000 == minutes);
    assert(millis / 1_000 == minutes * 60 + seconds);
    assert((millis / 1_000) % 60 == seconds);
    assert(millis % 1_000 == rest);
}

/// A padded number has as many characters as asked for, or as it needs, and but for
/// zeros in front is the number.
pub proof fn law_padding_adds_zeros_in_front(value: nat, width: nat)
    ensures
        ({
            let digits = crate::text::decimal(value);
            let text = crate::window::labels::padded(value, width);
            let front = text.len() - digits.len();
            &&& front >= 0
            &&& text.len() >= width
            &&& front > 0 ==> text.len() == width
            &&& forall|i: int| 0 <= i < front ==> #[trigger] text[i] == '0'
            &&& text.skip(front) == digits
        }),
{
    let digits = crate::text::decimal(value);
    let text = crate::window::labels::padded(value, width);
    assert(text.skip(text.len() - digits.len()) =~= digits);
}

/// A label has at most as many characters as fit, or the three dots; it is cut off
/// only where the text does not fit, and begins as the text does.
pub proof fn law_labels_fit(text: Seq<char>, maximum: nat)
    ensures
        ({
            let label = crate::window::labels::shortened(text, maximum);
            &&& maximum >= 3 ==> label.len() <= maximum
            &&& text.len() <= maximum ==> label == text
            &&& text.len() > maximum ==> label.len() >= 3 && label.skip(label.len() - 3) == seq![
                '.',
                '.',
                '.',
            ]
            &&& text.len() > maximum && maximum > 3 ==> label.len() == maximum && forall|i: int|
                0 <= i < maximum - 3 ==> #[trigger] label[i] == text[i]
        }),
{
    reveal_strlit("...");
    let label = crate::window::labels::shortened(text, maximum);
    if text.len() > maximum {
        assert(label.skip(label.len() - 3) =~= seq!['.', '.', '.']);
    }
}

/// One thing is counted in the singular, every other number of things in the
/// plural.
pub proof fn law_plurals_get_an_s(count: nat, thing: Seq<char>)
    ensures
        count == 1 ==> crate::window::labels::counted(count, thing) == crate::text::decimal(count)
            + " "@ + thing,
        count != 1 ==> crate::window::labels::counted(count, thing) == (crate::text::decimal(count)
            + " "@ + thing).push('s'),
{
    reveal_strlit("s");
    let plain = crate::text::decimal(count) + " "@ + thing;
    assert(plain + Seq::<char>::empty() =~= plain);
    assert(plain + "s"@ =~= plain.push('s'));
}

/// Another text is added to a list behind a comma and a space.
pub proof fn law_lists_are_separated_by_commas(texts: Seq<Seq<char>>, text: Seq<char>)
    ensures
        texts.len() > 0 ==> crate::window::labels::joined(texts.push(text))
            == crate::window::labels::joined(texts).push(',').push(' ') + text,
        crate::window::labels::joined(seq![text]) == text,
{
    reveal_strlit(", ");
    assert(texts.push(text).drop_last() =~= texts);
    if texts.len() > 0 {
        assert(crate::window::labels::joined(texts) + ", "@ =~= crate::window::labels::joined(
            texts,
        ).push(',').push(' '));
    }
}

/// The suggested node is the first trusted one that no machine is named after, or
/// the placeholder where all are placed.
pub proof fn law_suggested_nodes_are_not_placed(
    peers: Seq<Seq<char>>,
    screens: Seq<ScreenEditorView>,
    from: int,
)
    requires
        0 <= from <= peers.len(),
    ensures
        ({
            let node = crate::window::decisions::unplaced_node(peers, screens, from);
            ||| exists|i: int|
                from <= i < peers.len() && #[trigger] peers[i] == node && is_unplaced(
                    screens,
                    node,
                ) && forall|j: int| from <= j < i ==> !is_unplaced(screens, #[trigger] peers[j])
            ||| node == "peer-node"@ && forall|j: int|
                from <= j < peers.len() ==> !is_unplaced(screens, #[trigger] peers[j])
        }),
    decreases peers.len() - from,
{
    if from < peers.len() {
        lemma_first_named(screens, peers[from], 0);
        law_suggested_nodes_are_not_placed(peers, screens, from + 1);
        let node = crate::window::decisions::unplaced_node(peers, screens, from);
        if is_unplaced(screens, peers[from]) {
            assert(peers[from] == node);
        } else if exists|i: int|
            from + 1 <= i < peers.len() && #[trigger] peers[i] == node && is_unplaced(screens, node)
                && forall|j: int|
                from + 1 <= j < i ==> !is_unplaced(screens, #[trigger] peers[j]) {
            let i = choose|i: int|
                from + 1 <= i < peers.len() && #[trigger] peers[i] == node && is_unplaced(
                    screens,
                    node,
                ) && forall|j: int|
                    from + 1 <= j < i ==> !is_unplaced(screens, #[trigger] peers[j]);
            assert(from <= i < peers.len() && peers[i] == node);
        }
    }
}

/// No machine is named after the node.
pub open spec fn is_unplaced(screens: Seq<ScreenEditorView>, node: Seq<char>) -> bool {
    forall|i: int|
        0 <= i < screens.len() ==> crate::text::trimmed((#[trigger] screens[i]).node) != node
}

proof fn lemma_first_named(screens: Seq<ScreenEditorView>, node: Seq<char>, from: int)
    requires
        0 <= from <= screens.len(),
    ensures
        match crate::editor::machines::first_named(screens, node, from) {
            Some(index) => from <= index < screens.len() && crate::text::trimmed(
                screens[index].node,
            ) == node && forall|i: int|
                from <= i < index ==> crate::text::trimmed((#[trigger] screens[i]).node) != node,
            None => forall|i: int|
                from <= i < screens.len() ==> crate::text::trimmed((#[trigger] screens[i]).node)
                    != node,
        },
    decreases screens.len() - from,
{
    if from < screens.len() {
        lemma_first_named(screens, node, from + 1);
    }
}

/// The machine of a node is the first that is named after it, spaces around the name
/// aside.
pub proof fn law_machines_are_found_by_their_name(
    screens: Seq<ScreenEditorView>,
    node: Seq<char>,
)
    ensures
        match crate::editor::machines::first_named(screens, node, 0) {
            Some(index) => 0 <= index < screens.len() && crate::text::trimmed(screens[index].node)
                == node && forall|i: int|
                0 <= i < index ==> crate::text::trimmed((#[trigger] screens[i]).node) != node,
            None => is_unplaced(screens, node),
        },
{
    lemma_first_named(screens, node, 0);
}

/// The first IPv4 address is found wherever there is one.
pub proof fn law_the_first_v4_address_is_found(addresses: Seq<IpAddress>, from: int)
    requires
        0 <= from <= addresses.len(),
    ensures
        match crate::window::decisions::first_v4(addresses, from) {
            Some(address) => exists|i: int|
                from <= i < addresses.len() && #[trigger] addresses[i] == address && (
                address is V4) && forall|j: int|
                    from <= j < i ==> !(#[trigger] addresses[j] is V4),
            None => forall|i: int| from <= i < addresses.len() ==> !(#[trigger] addresses[i] is V4),
        },
    decreases addresses.len() - from,
{
    if from < addresses.len() {
        law_the_first_v4_address_is_found(addresses, from + 1);
        if addresses[from] is V4 {
            assert(addresses[from] == crate::window::decisions::first_v4(addresses, from)->Some_0);
        } else if let Some(address) = crate::window::decisions::first_v4(addresses, from) {
            let i = choose|i: int|
                from + 1 <= i < addresses.len() && #[trigger] addresses[i] == address && (
                address is V4) && forall|j: int|
                    from + 1 <= j < i ==> !(#[trigger] addresses[j] is V4);
            assert(from <= i < addresses.len() && addresses[i] == address);
        }
    }
}

/// Each connected agent has a row with its name, and one with its desktop exactly
/// where that is known.
pub proof fn law_every_agent_has_a_row(
    nodes: Seq<Seq<char>>,
    displays: Map<Seq<char>, RemoteDisplay>,
    node: Seq<char>,
)
    ensures
        ({
            let rows = crate::window::rows::agent_rows(nodes, displays);
            let named = MetricView { label: "Agent"@, value: node, tone: Tone::Success };
            let shown = MetricView {
                label: node + " desktop"@,
                value: crate::window::rows::desktop_text(displays[node]),
                tone: Tone::Plain,
            };
            &&& nodes.contains(node) ==> rows.contains(named)
            &&& nodes.contains(node) && displays.dom().contains(node) ==> rows.contains(shown)
            &&& nodes.len() <= rows.len() <= 2 * nodes.len()
            &&& forall|i: int|
                0 <= i < rows.len() ==> ((#[trigger] rows[i]).tone is Success ==> nodes.contains(
                    rows[i].value,
                ))
        }),
    decreases nodes.len(),
{
    if nodes.len() > 0 {
        let earlier = nodes.drop_last();
        let last = nodes.last();
        law_every_agent_has_a_row(earlier, displays, node);
        let before = crate::window::rows::agent_rows(earlier, displays);
        let rows = crate::window::rows::agent_rows(nodes, displays);
        let named = MetricView { label: "Agent"@, value: node, tone: Tone::Success };
        let shown = MetricView {
            label: node + " desktop"@,
            value: crate::window::rows::desktop_text(displays[node]),
            tone: Tone::Plain,
        };
        assert(nodes[nodes.len() - 1] == last);
        assert forall|i: int| 0 <= i < before.len() implies #[trigger] rows[i] == before[i] by {}
        if before.contains(named) {
            let i = choose|i: int| 0 <= i < before.len() && before[i] == named;
            assert(rows[i] == named);
        }
        if before.contains(shown) {
            let i = choose|i: int| 0 <= i < before.len() && before[i] == shown;
            assert(rows[i] == shown);
        }
        if node == last {
            assert(rows[before.len() as int] == named);
            if displays.dom().contains(node) {
                assert(rows[before.len() as int + 1] == shown);
            }
        } else if nodes.contains(node) {
            let i = choose|i: int| 0 <= i < nodes.len() && nodes[i] == node;
            assert(earlier[i] == node);
        }
        assert forall|i: int|
            0 <= i < rows.len() && (#[trigger] rows[i]).tone is Success implies nodes.contains(
            rows[i].value,
        ) by {
            if i < before.len() {
                assert(rows[i] == before[i]);
                let j = choose|j: int| 0 <= j < earlier.len() && earlier[j] == before[i].value;
                assert(nodes[j] == before[i].value);
            }
        }
    }
}

/// The rows of a session begin with its phase, the permission for input and the
/// clipboard. A controller shows how many agents are connected and where its input
/// goes, an agent whether it is controlled.
pub proof fn law_sessions_are_shown_in_rows(
    state: StatusView,
    available: bool,
    service: NativeService,
)
    ensures
        ({
            let rows = crate::window::rows::session_rows_of(state, available, service);
            let nodes = crate::window::rows::connected_nodes(state);
            &&& rows.len() >= 3
            &&& rows[0].value == crate::window::status::phase_label(state.phase).0
            &&& rows[1].tone is Danger <==> !available || service is Closed
            &&& rows[1].tone is Success <==> available && service is Ready
            &&& rows[2].tone is Success <==> state.clipboard_ready
            &&& state.role is None ==> rows.len() == 3
            &&& state.role == Some(RuntimeRole::Controller) ==> {
                &&& rows.len() >= 5
                &&& rows[3].value == crate::text::decimal(nodes.len())
                &&& rows[3].tone is Success <==> nodes.len() > 0
                &&& rows[4].tone is Accent <==> state.controls_remote()
                &&& state.controls_remote() ==> Some(rows[4].value) == state.focus
            }
            &&& state.role == Some(RuntimeRole::Agent) ==> {
                &&& rows.len() == 5
                &&& nodes.len() > 0 ==> rows[3].value == nodes[0]
                &&& rows[3].tone is Success <==> nodes.len() > 0
                &&& rows[4].tone is Accent <==> state.agent_controlled
                &&& rows[4].tone is Warning <==> !state.agent_controlled && nodes.len() == 0
            }
        }),
{
}

/// A new desktop of this node is shown in the fields of its own machine, of a
/// controller, or as the desktop of an agent. Nothing else is changed.
pub proof fn law_own_desktops_are_shown_in_the_fields(
    editor: crate::editor::config_editor::EditorView,
    node: Seq<char>,
    layout: crate::domain::display::LayoutView,
)
    requires
        layout.size.width@ != 0,
        layout.size.height@ != 0,
    ensures
        ({
            let after = crate::window::model::with_desktop(editor, node, layout);
            &&& after.role == editor.role
            &&& after.listen_address == editor.listen_address
            &&& after.controller_node == editor.controller_node
            &&& after.controller_address == editor.controller_address
            &&& after.edge_behavior == editor.edge_behavior
            &&& after.screens.len() == editor.screens.len()
            &&& editor.role is Agent ==> {
                &&& after.screens == editor.screens
                &&& after.agent_layout == layout
                &&& after.has_agent_size(layout.size)
            }
            &&& editor.role is Controller ==> {
                &&& after.agent_layout == editor.agent_layout
                &&& is_unplaced(editor.screens, node) ==> after == editor
            }
        }),
{
    lemma_first_named(editor.screens, node, 0);
    crate::text::law_decimal_u32_round_trips(layout.size.width@);
    crate::text::law_decimal_u32_round_trips(layout.size.height@);
}

/// A desktop that another node reported is shown in the fields of its machine and
/// in no other.
pub proof fn law_reported_desktops_are_shown_in_the_fields(
    editor: crate::editor::config_editor::EditorView,
    screen: crate::domain::arrangement::PlacementView,
    index: int,
)
    requires
        screen.bounds.size.width@ != 0,
        screen.bounds.size.height@ != 0,
        0 <= index < editor.screens.len() <= usize::MAX,
    ensures
        ({
            let after = crate::window::model::updated_editor(editor, screen);
            let first = crate::text::trimmed(editor.screens[index].node) == screen.node && forall|
                i: int,
            |
                0 <= i < index ==> crate::text::trimmed((#[trigger] editor.screens[i]).node)
                    != screen.node;
            &&& after.screens.len() == editor.screens.len()
            &&& !first ==> after.screens[index] == editor.screens[index]
            &&& first ==> {
                &&& after.screens[index].node == editor.screens[index].node
                &&& after.screens[index].layout == screen.layout
                &&& after.selected_screen == index
                &&& after.screens[index].geometry() matches Some(shown) && shown.x
                    == screen.bounds.origin.x && shown.y == screen.bounds.origin.y && shown.width
                    == screen.bounds.size.width@ && shown.height == screen.bounds.size.height@
            }
            &&& after.role == editor.role && after.edge_behavior == editor.edge_behavior
        }),
{
    lemma_first_named(editor.screens, screen.node, 0);
    crate::editor::screen::law_placements_are_shown_as_they_are(screen);
    if let Some(found) = crate::editor::machines::first_named(editor.screens, screen.node, 0) {
        let after = crate::window::model::updated_editor(editor, screen);
        if found == index {
            let plain = ScreenEditorView::of_placement(screen);
            assert(after.screens[index].geometry() == plain.geometry());
        }
    }
}

/// A session can start exactly where native input is available, this node has an
/// identity, and the trusted nodes are known.
pub proof fn law_sessions_start_when_ready(model: ModelView)
    ensures
        model.start_fault() is None <==> model.available && model.local_node is Some
            && model.has_trust,
        !model.stopped().session_running,
        model.stopped().session_state.phase is Stopped,
        model.stopped().session_state.last_error is None,
        model.stopped().editor == model.editor,
        model.stopped().saved_config == model.saved_config,
{
}

/// A saved configuration is held and summarized with its node.
pub proof fn law_held_configurations_are_summarized(
    model: ModelView,
    config: crate::config::ConfigView,
)
    ensures
        model.holding(config).saved_config == Some(config),
        model.holding(config).config_summary == Some(crate::window::labels::summary_text(config)),
        model.holding(config).editor == model.editor,
        model.holding(config).session_running == model.session_running,
{
}

/// An event of the session changes the status, shows its notice or leaves the one
/// that is shown, and changes the fields only where a desktop changed.
pub proof fn law_events_are_shown(model: ModelView, event: EventView)
    ensures
        ({
            let after = model.after_event(event);
            let notice = crate::window::notice::notice_of(event, model.session_state);
            &&& after.session_state == model.session_state.after(event)
            &&& notice is Some ==> after.notice == notice
            &&& notice is None ==> after.notice == model.notice
            &&& !(event is LocalDesktopChanged) && !(event is DisplayChanged) ==> after.editor
                == model.editor && after.local_origin == model.local_origin && after.local_layout
                == model.local_layout
            &&& event matches EventView::LocalDesktopChanged { geometry } ==> after.local_origin
                == Some(geometry.origin) && (after.local_layout matches Some(layout) && layout.size
                == geometry.size && layout.monitors.len() == 1)
            &&& after.saved_config == model.saved_config
            &&& after.session_running == model.session_running
        }),
{
}

/// A configuration goes on in a running session exactly where it is a controller of
/// the same node that listens at the same address, and this is mutual.
pub proof fn law_same_controllers_go_on(
    a: crate::config::ConfigView,
    b: crate::config::ConfigView,
)
    ensures
        crate::window::decisions::is_same_controller(a, b) <==> a.node == b.node && (a.role
            is Controller) && (b.role is Controller) && crate::editor::laws::address_of(a.role)
            == crate::editor::laws::address_of(b.role),
        crate::window::decisions::is_same_controller(a, b)
            == crate::window::decisions::is_same_controller(b, a),
{
}

/// The row of a node shows twelve bytes of its fingerprint, two characters each with
/// a hyphen after every second byte, and says whether it is trusted.
pub proof fn law_rows_show_the_fingerprint(
    found: crate::discovery::record::NodeView,
    trusted: Seq<crate::identity::store::PeerView>,
    index: int,
)
    requires
        found.fingerprint().len() == 32,
        0 <= index < 12,
    ensures
        ({
            let row = crate::window::pairing::nearby_row(found, trusted);
            let byte = found.fingerprint()[index];
            let at = 2 * index + index / 2;
            &&& row.node == found.node
            &&& row.fingerprint.len() == 29
            &&& row.fingerprint[at] == crate::encoding::upper_hex((byte / 16) as int)
            &&& row.fingerprint[at + 1] == crate::encoding::upper_hex((byte % 16) as int)
            &&& row.paired <==> exists|i: int|
                0 <= i < trusted.len() && (#[trigger] trusted[i]).node == found.node
        }),
{
    let shown = found.fingerprint().take(12);
    crate::numerals::law_bytes_are_written_in_groups(shown, index);
    assert(shown[index] == found.fingerprint()[index]);
}

/// The first part of a path ends before the first two colons, or with the path.
pub proof fn law_paths_begin_with_their_first_part(first: Seq<char>, rest: Seq<char>, end: int)
    requires
        forall|i: int| 0 <= i < first.len() ==> #[trigger] first[i] != ':',
        crate::window::labels::is_part_end(first + seq![':', ':'] + rest, end),
    ensures
        (first + seq![':', ':'] + rest).take(end) == first,
{
    let path = first + seq![':', ':'] + rest;
    let at = first.len() as int;
    assert(path[at] == ':' && path[at + 1] == ':');
    assert(crate::window::labels::is_separator(path, at));
    if end < at {
        assert(path[end] == first[end]);
    }
    assert(path.take(at) =~= first);
}

/// A path without two colons in a row is its own first part.
pub proof fn law_plain_paths_have_one_part(path: Seq<char>, end: int)
    requires
        forall|i: int| 0 <= i < path.len() ==> #[trigger] path[i] != ':',
        crate::window::labels::is_part_end(path, end),
    ensures
        path.take(end) == path,
{
    if end < path.len() {
        assert(path[end] == ':');
    }
    assert(path.take(path.len() as int) =~= path);
}

/// Rotations are shown in different words.
pub proof fn law_rotations_are_told_apart(
    a: crate::domain::display::DisplayRotation,
    b: crate::domain::display::DisplayRotation,
)
    ensures
        crate::window::labels::rotation_text(a) == crate::window::labels::rotation_text(b) <==> a
            == b,
        crate::window::labels::rotation_text(crate::domain::display::DisplayRotation::Normal)[0]
            == 'l',
        crate::window::labels::rotation_text(
            crate::domain::display::DisplayRotation::Clockwise90,
        )[0] == '9',
        crate::window::labels::rotation_text(
            crate::domain::display::DisplayRotation::Clockwise180,
        )[0] == '1',
        crate::window::labels::rotation_text(
            crate::domain::display::DisplayRotation::Clockwise270,
        )[0] == '2',
{
    reveal_strlit("landscape");
    reveal_strlit("90 degrees");
    reveal_strlit("180 degrees");
    reveal_strlit("270 degrees");
    let first = crate::window::labels::rotation_text(a);
    let second = crate::window::labels::rotation_text(b);
    if a != b {
        assert(first[0] != second[0]);
    }
}

/// What is ready is shown as a success, and what is not is shown otherwise.
pub proof fn law_readiness_is_shown(
    available: bool,
    trusted: nat,
    nearby: nat,
    discovering: bool,
    connected: bool,
)
    ensures
        ({
            let rows = crate::window::rows::readiness_rows_of(
                available,
                trusted,
                nearby,
                discovering,
                connected,
            );
            &&& rows.len() == 4
            &&& rows[0].tone is Success <==> available
            &&& rows[1].value == crate::text::decimal(trusted)
            &&& rows[1].tone is Success <==> trusted >= 1
            &&& rows[2].value == crate::text::decimal(nearby)
            &&& rows[2].tone is Danger <==> !discovering
            &&& rows[3].tone is Success <==> connected
        }),
{
}

/// A configuration that was read is taken as it is where the desktop of this node is
/// not known.
pub proof fn law_configurations_are_loaded_as_they_are(
    model: ModelView,
    config: crate::config::ConfigView,
    loaded: crate::config::ConfigView,
)
    requires
        crate::window::model::is_loaded(model, config, loaded),
    ensures
        loaded.node == config.node,
        model.local_layout is None ==> loaded == config,
{
}

/// A monitor is shown by its name, or its number where it has none, with its size,
/// its scale in whole percent and its rotation.
pub proof fn law_monitors_are_described(
    monitor: crate::domain::display::MonitorView,
    number: nat,
    percent: nat,
    rest: nat,
)
    requires
        rest < 10,
        monitor.scale_milli@ == percent * 10 + rest,
    ensures
        ({
            let line = crate::window::machine::monitor_line(monitor, number);
            let name = if monitor.name is Some {
                monitor.name->Some_0
            } else {
                "Display "@ + crate::text::decimal(number)
            };
            line == name + ": "@ + crate::text::decimal(monitor.bounds.size.width@ as nat) + " x "@
                + crate::text::decimal(monitor.bounds.size.height@ as nat) + " at "@
                + crate::text::decimal(percent) + "%, "@ + crate::window::labels::rotation_text(
                monitor.rotation,
            )
        }),
{
    assert(monitor.scale_milli@ / 10 == percent);
}

} // verus!
