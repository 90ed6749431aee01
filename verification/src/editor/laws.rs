//! What holds of editing a configuration.

use vstd::prelude::*;

use crate::editor::config_editor::EditorError;
use crate::editor::geometry::ScreenGeometry;
use crate::editor::screen::ScreenError;

verus! {

/// Every node of a configuration has an identifier, and every desktop is one.
pub open spec fn is_well_formed(config: crate::config::ConfigView) -> bool {
    match config.role {
        crate::config::RoleView::Controller { listen, screens, edge_behavior } => {
            &&& crate::domain::arrangement::is_arrangement(screens)
            &&& forall|i: int|
                0 <= i < screens.len() ==> {
                    &&& (#[trigger] screens[i]).is_coherent()
                    &&& crate::domain::arrangement::has_area(screens[i])
                    &&& crate::domain::identity::is_node_id(
                        vstd::utf8::encode_utf8(screens[i].node),
                    )
                }
        },
        crate::config::RoleView::Agent { controller_node, controller, layout } => {
            &&& crate::domain::identity::is_node_id(vstd::utf8::encode_utf8(controller_node))
            &&& layout.size.width@ != 0
            &&& layout.size.height@ != 0
        },
    }
}

/// The address that a configuration holds.
pub open spec fn address_of(role: crate::config::RoleView) -> Seq<char> {
    match role {
        crate::config::RoleView::Controller { listen, screens, edge_behavior } => listen,
        crate::config::RoleView::Agent { controller_node, controller, layout } => controller,
    }
}

proof fn lemma_identifiers_are_tight(node: Seq<char>)
    requires
        crate::domain::identity::is_node_id(vstd::utf8::encode_utf8(node)),
    ensures
        crate::text::trimmed(node) == node,
{
    crate::identity::pairing::lemma_node_is_ascii(node);
    vstd::utf8::is_ascii_chars_encode_utf8(node);
    vstd::utf8::is_ascii_chars_nat_bound(node);
    let bytes = vstd::utf8::encode_utf8(node);
    let last = node.len() - 1;
    assert(node[0] as u8 == bytes[0]);
    assert(node[last] as u8 == bytes[last]);
    assert(crate::text::is_tight(node));
    crate::text::law_trimming_keeps_tight_text(node);
}

/// What is shown of a configuration describes that configuration.
pub proof fn law_shown_configurations_come_back(config: crate::config::ConfigView)
    requires
        is_well_formed(config),
    ensures
        crate::editor::config_editor::EditorView::of_config(config).describes(
            Ok(address_of(config.role)),
            config.role,
        ),
{
    let editor = crate::editor::config_editor::EditorView::of_config(config);
    match config.role {
        crate::config::RoleView::Controller { listen, screens, edge_behavior } => {
            assert forall|i: int| 0 <= i < screens.len() implies editor.screens[i].places(
                #[trigger] screens[i],
            ) by {
                let screen = screens[i];
                lemma_identifiers_are_tight(screen.node);
                crate::editor::screen::law_placements_are_shown_as_they_are(screen);
            }
        },
        crate::config::RoleView::Agent { controller_node, controller, layout } => {
            lemma_identifiers_are_tight(controller_node);
            crate::text::law_decimal_u32_round_trips(layout.size.width@);
            crate::text::law_decimal_u32_round_trips(layout.size.height@);
        },
    }
}

/// The desktop of this node keeps its corner when its size is taken over.
pub proof fn law_local_desktop_keeps_its_corner(
    screens: Seq<crate::editor::screen::ScreenEditorView>,
    index: int,
    layout: crate::domain::display::LayoutView,
)
    requires
        0 <= index < screens.len(),
        screens[index].geometry() is Some,
        layout.size.width@ != 0,
        layout.size.height@ != 0,
    ensures
        crate::editor::machines::with_local_desktop(screens, index, layout)[index].geometry()
            == Some(
            ScreenGeometry {
                width: layout.size.width@,
                height: layout.size.height@,
                ..screens[index].geometry()->0
            },
        ),
{
    let current = screens[index].geometry()->0;
    let width = layout.size.width@;
    let height = layout.size.height@;
    let x = crate::saturating::clamp_i32(
        crate::editor::machines::resized_x(
            screens,
            index,
            current,
            width as int,
            screens.len() as int,
        ),
    );
    let y = crate::saturating::clamp_i32(
        crate::editor::machines::resized_y(
            screens,
            index,
            current,
            height as int,
            screens.len() as int,
        ),
    );
    crate::text::law_decimal_u32_round_trips(width);
    crate::text::law_decimal_u32_round_trips(height);
    crate::text::law_decimal_i32_round_trips(x);
    crate::text::law_decimal_i32_round_trips(y);
    crate::text::law_decimal_i32_round_trips(current.x);
    crate::text::law_decimal_i32_round_trips(current.y);
    let wider = crate::editor::machines::resized(screens, index, width, height);
    assert(wider[index].geometry() == Some(ScreenGeometry { x, y, width, height }));
}

/// A machine that snapped to another overlaps none, and all hold together.
pub proof fn law_snapped_machines_hold_together(
    screens: Seq<crate::editor::screen::ScreenEditorView>,
    index: int,
    after: Seq<crate::editor::screen::ScreenEditorView>,
)
    requires
        0 <= index < screens.len(),
        crate::editor::machines::is_snapped(screens, index, after),
    ensures
        after != screens ==> {
            &&& crate::editor::machines::placed(after) is Some
            &&& crate::editor::geometry::are_connected(crate::editor::machines::placed(after)->0)
            &&& forall|i: int|
                0 <= i < after.len() && i != index ==> !(
                #[trigger] after[i]).geometry()->0.intersects(after[index].geometry()->0)
        },
{
    if after != screens {
        let before = crate::editor::machines::placed(screens)->0;
        let option = choose|option: int|
            crate::editor::machines::is_nearest_option(before, index, option)
                && #[trigger] crate::editor::machines::is_moved_to_option(
                screens,
                before,
                index,
                option,
                after,
            );
        let place = crate::editor::machines::snap_place(before, index, option);
        let there = crate::editor::machines::with_place(before, index, place);
        assert(before[index] == screens[index].geometry()->0);
        crate::editor::screen::law_moved_machines_lie_there(screens[index], place.0, place.1);
        assert(screens[index].geometry() is Some);
        assert forall|i: int| 0 <= i < after.len() implies (#[trigger] after[i]).geometry() == Some(
            there[i],
        ) by {
            if i != index {
                assert(after[i] == screens[i]);
                assert(screens[i].geometry() is Some);
            }
        }
        assert(after.map_values(
            |screen: crate::editor::screen::ScreenEditorView| screen.geometry()->0,
        ) =~= there);
        assert forall|i: int| 0 <= i < after.len() && i != index implies !(
        #[trigger] after[i]).geometry()->0.intersects(after[index].geometry()->0) by {
            assert(!there[index].intersects(before[i]));
            assert(there[i] == before[i]);
        }
    }
}

/// The fields of a machine place it in one way.
proof fn lemma_machines_have_one_place(
    screen: crate::editor::screen::ScreenEditorView,
    a: crate::domain::arrangement::PlacementView,
    b: crate::domain::arrangement::PlacementView,
)
    requires
        screen.places(a),
        screen.places(b),
    ensures
        a == b,
{
    crate::domain::nonzero::lemma_nonzero_u32_identity(a.bounds.size.width, b.bounds.size.width);
    crate::domain::nonzero::lemma_nonzero_u32_identity(
        a.bounds.size.height,
        b.bounds.size.height,
    );
}

/// The fields describe one configuration at most.
pub proof fn law_fields_describe_one_role(
    editor: crate::editor::config_editor::EditorView,
    address: Result<Seq<char>, Seq<char>>,
    a: crate::config::RoleView,
    b: crate::config::RoleView,
)
    requires
        editor.describes(address, a),
        editor.describes(address, b),
    ensures
        a == b,
{
    match (a, b) {
        (
            crate::config::RoleView::Controller { listen: _, screens: first, edge_behavior: _ },
            crate::config::RoleView::Controller { listen: _, screens: second, edge_behavior: _ },
        ) => {
            lemma_machines_are_placed_once(editor, first, second);
        },
        (
            crate::config::RoleView::Agent { controller_node: _, controller: _, layout: first },
            crate::config::RoleView::Agent { controller_node: _, controller: _, layout: second },
        ) => {
            crate::domain::nonzero::lemma_nonzero_u32_identity(
                first.size.width,
                second.size.width,
            );
            crate::domain::nonzero::lemma_nonzero_u32_identity(
                first.size.height,
                second.size.height,
            );
        },
        _ => {},
    }
}

proof fn lemma_machines_are_placed_once(
    editor: crate::editor::config_editor::EditorView,
    a: Seq<crate::domain::arrangement::PlacementView>,
    b: Seq<crate::domain::arrangement::PlacementView>,
)
    requires
        editor.places(a),
        editor.places(b),
    ensures
        a == b,
{
    assert forall|i: int| 0 <= i < a.len() implies a[i] == b[i] by {
        assert(editor.screens[i].places(a[i]));
        assert(editor.screens[i].places(b[i]));
        lemma_machines_have_one_place(editor.screens[i], a[i], b[i]);
    }
    assert(a =~= b);
}

/// A machine that is refused is placed nowhere.
pub proof fn law_refused_machines_are_not_placed(
    error: ScreenError,
    screen: crate::editor::screen::ScreenEditorView,
)
    requires
        error.applies_to(screen),
    ensures
        !screen.is_complete(),
{
    if screen.is_complete() {
        let placement = choose|placement: crate::domain::arrangement::PlacementView|
            screen.places(placement);
        assert(screen.places(placement));
        if let ScreenError::Layout(fault) = error {
            let size = choose|size: crate::domain::geometry::Size|
                size.width@ == screen.geometry()->0.width && size.height@
                    == screen.geometry()->0.height && fault.applies_to(
                    #[trigger] crate::editor::screen::layout_for(screen.layout, size),
                ) && !crate::editor::screen::layout_for(screen.layout, size).is_valid();
            crate::domain::nonzero::lemma_nonzero_u32_identity(
                size.width,
                placement.bounds.size.width,
            );
            crate::domain::nonzero::lemma_nonzero_u32_identity(
                size.height,
                placement.bounds.size.height,
            );
            assert(size == placement.bounds.size);
        }
    }
}

/// Fields that are refused describe no configuration.
pub proof fn law_refused_fields_describe_nothing(
    error: EditorError,
    editor: crate::editor::config_editor::EditorView,
    node: Seq<char>,
    address: Result<Seq<char>, Seq<char>>,
    role: crate::config::RoleView,
)
    requires
        error.applies_to(editor, node, address),
        editor.describes(address, role),
    ensures
        crate::config::role_fault(crate::config::ConfigView { node, role }) is Some,
{
    match error {
        EditorError::Machine { number, error } => {
            let screens = role->screens;
            let index = number - 1;
            assert(editor.places(screens));
            assert(editor.screens[index].places(screens[index]));
            law_refused_machines_are_not_placed(error, editor.screens[index]);
        },
        EditorError::Topology(error) => {
            let placements = choose|placements: Seq<crate::domain::arrangement::PlacementView>|
                #[trigger]
                editor.places(placements) && error.applies_to(placements)
                    && !crate::domain::arrangement::is_arrangement(placements);
            lemma_machines_are_placed_once(editor, placements, role->screens);
        },
        EditorError::Config(error) => {
            let refused = choose|refused: crate::config::RoleView|
                #![trigger editor.describes(address, refused)]
                editor.describes(address, refused) && crate::config::role_fault(
                    crate::config::ConfigView { node, role: refused },
                ) == Some(error@);
            law_fields_describe_one_role(editor, address, refused, role);
        },
        _ => {},
    }
}

/// A side is what its field says without the spaces around it, and never zero.
pub proof fn law_sides_are_read_from_their_field(text: Seq<char>)
    ensures
        crate::editor::screen::dimension(text) matches Ok(length) ==> length > 0
            && crate::text::parsed_u32(crate::text::trimmed(text)) == Ok::<
            u32,
            crate::text::NumberError,
        >(length),
        crate::text::parsed_u32(crate::text::trimmed(text)) matches Ok(length) ==> (length > 0
            ==> crate::editor::screen::dimension(text) == Ok::<
            u32,
            crate::editor::screen::DimensionError,
        >(length)) && (length == 0 ==> crate::editor::screen::dimension(text) == Err::<
            u32,
            crate::editor::screen::DimensionError,
        >(crate::editor::screen::DimensionError::Zero)),
{
}

/// A machine can be removed exactly where others are left that all lie somewhere and
/// hold together.
pub proof fn law_removing_keeps_machines_together(
    screens: Seq<crate::editor::screen::ScreenEditorView>,
    index: int,
    places: Seq<ScreenGeometry>,
)
    requires
        0 <= index < screens.len(),
        places.len() == screens.len() - 1,
        forall|i: int|
            0 <= i < places.len() ==> screens[if i < index {
                i
            } else {
                i + 1
            }].geometry() == Some(#[trigger] places[i]),
    ensures
        crate::editor::machines::can_remove(screens, index) <==> screens.len() >= 2
            && crate::editor::geometry::are_connected(places),
{
    let left = screens.remove(index);
    assert forall|i: int| 0 <= i < left.len() implies (#[trigger] left[i]).geometry() == Some(
        places[i],
    ) by {
        assert(left[i] == screens[if i < index {
            i
        } else {
            i + 1
        }]);
    }
    assert(left.map_values(
        |screen: crate::editor::screen::ScreenEditorView| screen.geometry()->0,
    ) =~= places);
}

/// The known monitors of a desktop count as long as its size is theirs; at any other
/// size the desktop is one monitor of that size.
pub proof fn law_known_monitors_count_at_their_size(
    known: crate::domain::display::LayoutView,
    size: crate::domain::geometry::Size,
)
    ensures
        crate::editor::screen::layout_for(known, size).size == size,
        known.size == size ==> crate::editor::screen::layout_for(known, size).monitors
            == known.monitors,
        known.size != size ==> {
            let monitors = crate::editor::screen::layout_for(known, size).monitors;
            &&& monitors.len() == 1
            &&& monitors[0].bounds.size == size
            &&& monitors[0].bounds.origin.x == 0
            &&& monitors[0].bounds.origin.y == 0
        },
{
}

/// A node without a configuration is shown as a controller with one machine, its
/// own, at the corner of the canvas.
pub proof fn law_fresh_fields_show_one_machine(node: Seq<char>)
    ensures
        ({
            let editor = crate::editor::config_editor::EditorView::fresh(node);
            &&& editor.role is Controller
            &&& editor.screens.len() == 1
            &&& editor.screens[0].node == node
            &&& editor.screens[0].geometry() == Some(
                ScreenGeometry { x: 0, y: 0, width: 1920, height: 1080 },
            )
            &&& editor.edge_behavior.switch_delay_ms == 0
            &&& editor.edge_behavior.corner_dead_zone_percent == 2
        }),
{
    crate::text::law_decimal_i32_round_trips(0);
    crate::text::law_decimal_u32_round_trips(1920);
    crate::text::law_decimal_u32_round_trips(1080);
}

} // verus!
