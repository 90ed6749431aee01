//! What surrounds a desktop: its outline, its barriers and its clipboard.

use vstd::prelude::*;

use crate::domain::topology::Edge;
use crate::platform::clipboard::{ClipboardNews, WatchedView};
use crate::platform::geometry::{BarrierLine, BarrierMeta, GeometryError, Rectangle, Region};
use crate::platform::portal::{PortalView, RequestView};
use crate::platform::report::PlatformIssue;

verus! {

/// Where a rectangle ends along an axis, as far as coordinates go.
pub open spec fn far_end(rectangle: Rectangle, horizontal: bool) -> int {
    let end = if horizontal {
        rectangle.x + rectangle.width
    } else {
        rectangle.y + rectangle.height
    };
    if end <= 0x7fff_ffff_ffff_ffff {
        end
    } else {
        0x7fff_ffff_ffff_ffff
    }
}

/// Each side of the outline of a desktop is the side of one of its parts, and no
/// part reaches beyond it.
pub proof fn law_outlines_end_with_a_part(rectangles: Seq<Rectangle>)
    requires
        rectangles.len() > 0,
    ensures
        exists|i: int|
            0 <= i < rectangles.len() && (#[trigger] rectangles[i]).x
                == crate::platform::geometry::left_of(rectangles),
        exists|i: int|
            0 <= i < rectangles.len() && (#[trigger] rectangles[i]).y
                == crate::platform::geometry::top_of(rectangles),
        exists|i: int|
            0 <= i < rectangles.len() && far_end(#[trigger] rectangles[i], true)
                == crate::platform::geometry::right_of(rectangles),
        exists|i: int|
            0 <= i < rectangles.len() && far_end(#[trigger] rectangles[i], false)
                == crate::platform::geometry::bottom_of(rectangles),
        forall|i: int|
            0 <= i < rectangles.len() ==> {
                &&& (#[trigger] rectangles[i]).x >= crate::platform::geometry::left_of(rectangles)
                &&& rectangles[i].y >= crate::platform::geometry::top_of(rectangles)
                &&& far_end(rectangles[i], true) <= crate::platform::geometry::right_of(rectangles)
                &&& far_end(rectangles[i], false) <= crate::platform::geometry::bottom_of(
                    rectangles,
                )
            },
    decreases rectangles.len(),
{
    let last = rectangles.len() - 1;
    if rectangles.len() == 1 {
        assert(rectangles[0].x == crate::platform::geometry::left_of(rectangles));
        assert(rectangles[0].y == crate::platform::geometry::top_of(rectangles));
        assert(far_end(rectangles[0], true) == crate::platform::geometry::right_of(rectangles));
        assert(far_end(rectangles[0], false) == crate::platform::geometry::bottom_of(rectangles));
    } else {
        let earlier = rectangles.drop_last();
        law_outlines_end_with_a_part(earlier);
        let a = choose|i: int|
            0 <= i < earlier.len() && (#[trigger] earlier[i]).x
                == crate::platform::geometry::left_of(earlier);
        let b = choose|i: int|
            0 <= i < earlier.len() && (#[trigger] earlier[i]).y
                == crate::platform::geometry::top_of(earlier);
        let c = choose|i: int|
            0 <= i < earlier.len() && far_end(#[trigger] earlier[i], true)
                == crate::platform::geometry::right_of(earlier);
        let d = choose|i: int|
            0 <= i < earlier.len() && far_end(#[trigger] earlier[i], false)
                == crate::platform::geometry::bottom_of(earlier);
        assert(rectangles[a] == earlier[a] && rectangles[b] == earlier[b]);
        assert(rectangles[c] == earlier[c] && rectangles[d] == earlier[d]);
        assert(rectangles[last] == rectangles.last());
        assert forall|i: int| 0 <= i < rectangles.len() implies {
            &&& (#[trigger] rectangles[i]).x >= crate::platform::geometry::left_of(rectangles)
            &&& rectangles[i].y >= crate::platform::geometry::top_of(rectangles)
            &&& far_end(rectangles[i], true) <= crate::platform::geometry::right_of(rectangles)
            &&& far_end(rectangles[i], false) <= crate::platform::geometry::bottom_of(rectangles)
        } by {
            if i < last {
                assert(rectangles[i] == earlier[i]);
            }
        }
    }
}

/// Parts make up a desktop exactly where there are some and their outline has a
/// size and a corner that can be written down.
pub proof fn law_desktops_have_an_outline(rectangles: Seq<Rectangle>)
    ensures
        crate::platform::geometry::geometry_fault(rectangles) is None <==> {
            let width = crate::platform::geometry::right_of(rectangles)
                - crate::platform::geometry::left_of(rectangles);
            let height = crate::platform::geometry::bottom_of(rectangles)
                - crate::platform::geometry::top_of(rectangles);
            &&& rectangles.len() >= 1
            &&& 1 <= width <= 0xffff_ffff
            &&& 1 <= height <= 0xffff_ffff
            &&& -0x8000_0000 <= crate::platform::geometry::left_of(rectangles) <= 0x7fff_ffff
            &&& -0x8000_0000 <= crate::platform::geometry::top_of(rectangles) <= 0x7fff_ffff
        },
        crate::platform::geometry::geometry_fault(rectangles) == Some(GeometryError::NoRegions)
            <==> rectangles.len() == 0,
{
}

/// The line is as long as the side of the region it belongs to.
pub open spec fn is_along(line: BarrierLine, region: Region, edge: Edge) -> bool {
    if edge is Left || edge is Right {
        &&& line.x1 == line.x2
        &&& line.y1 == region.y
        &&& line.y2 - line.y1 + 1 == region.height
    } else {
        &&& line.y1 == line.y2
        &&& line.x1 == region.x
        &&& line.x2 - line.x1 + 1 == region.width
    }
}

/// A barrier goes along the whole side of its region: on the first column or row,
/// or just behind the last one.
pub proof fn law_barriers_follow_their_edge(line: BarrierLine, region: Region, edge: Edge)
    requires
        crate::platform::geometry::is_barrier(line, region, edge),
        region.width > 0,
        region.height > 0,
        region.x + region.width <= i32::MAX,
        region.y + region.height <= i32::MAX,
    ensures
        is_along(line, region, edge),
        edge is Left ==> line.x1 == region.x,
        edge is Right ==> line.x1 == region.x + region.width,
        edge is Top ==> line.y1 == region.y,
        edge is Bottom ==> line.y1 == region.y + region.height,
{
}

/// Each region has one barrier along each edge, and no two barriers have one
/// number.
pub proof fn law_every_edge_has_a_barrier(
    barriers: Seq<BarrierMeta>,
    regions: Seq<Region>,
    region: int,
    edge: Edge,
)
    requires
        crate::platform::geometry::are_barriers(barriers, regions),
        barriers.len() == 4 * regions.len(),
        0 <= region < regions.len(),
    ensures
        exists|i: int|
            0 <= i < barriers.len() && (#[trigger] barriers[i]).edge == edge
                && crate::platform::geometry::is_barrier(
                barriers[i].position,
                regions[region],
                edge,
            ),
        forall|i: int, j: int|
            0 <= i < j < barriers.len() ==> 0 < (#[trigger] barriers[i]).id < (
            #[trigger] barriers[j]).id,
{
    let number: int = match edge {
        Edge::Left => 0,
        Edge::Right => 1,
        Edge::Top => 2,
        Edge::Bottom => 3,
    };
    let i = 4 * region + number;
    assert(i % 4 == number && i / 4 == region);
    assert(barriers[i].edge == edge);
}

/// The barriers that are left are those that were not refused.
pub proof fn law_refused_barriers_are_dropped(
    barriers: Seq<BarrierMeta>,
    refused: Seq<u32>,
    barrier: BarrierMeta,
)
    ensures
        crate::platform::geometry::taken(barriers, refused).contains(barrier)
            <==> barriers.contains(barrier) && !refused.contains(barrier.id),
{
    broadcast use vstd::seq_lib::group_filter_ensures;
    broadcast use vstd::seq::Seq::lemma_filter_contains_rev;

    let left = crate::platform::geometry::taken(barriers, refused);
    if left.contains(barrier) {
        let i = choose|i: int| 0 <= i < left.len() && left[i] == barrier;
        assert(!refused.contains(left[i].id));
    }
    if barriers.contains(barrier) && !refused.contains(barrier.id) {
        let i = choose|i: int| 0 <= i < barriers.len() && barriers[i] == barrier;
        assert(left.contains(barriers[i]));
    }
}

/// Edges are captured under different numbers, none of them zero.
pub proof fn law_capture_handles_are_different(a: Edge, b: Edge)
    ensures
        crate::platform::geometry::handle_of(a) == crate::platform::geometry::handle_of(b) <==> a
            == b,
        1 <= crate::platform::geometry::handle_of(a) <= 4,
{
}

/// Where any type is text that names UTF-8, the first of those is read. Otherwise
/// it is the first that is plain text, and nothing where there is none.
pub proof fn law_utf8_text_is_preferred(mime_types: Seq<Seq<char>>, index: int, other: int)
    requires
        crate::platform::clipboard::is_preferred(mime_types, index),
        0 <= other < mime_types.len(),
    ensures
        0 <= index < mime_types.len(),
        crate::platform::clipboard::is_utf8_text(mime_types[other])
            ==> crate::platform::clipboard::is_utf8_text(mime_types[index]) && index <= other,
        crate::platform::clipboard::is_plain_text(mime_types[other])
            ==> crate::platform::clipboard::is_utf8_text(mime_types[index]) || index <= other,
        crate::platform::clipboard::is_utf8_text(mime_types[index])
            || crate::platform::clipboard::is_plain_text(mime_types[index]),
{
}

/// A type that is preferred at two places is preferred at one.
pub proof fn law_one_type_is_preferred(mime_types: Seq<Seq<char>>, a: int, b: int)
    requires
        crate::platform::clipboard::is_preferred(mime_types, a),
        crate::platform::clipboard::is_preferred(mime_types, b),
    ensures
        a == b,
{
    law_utf8_text_is_preferred(mime_types, a, b);
    law_utf8_text_is_preferred(mime_types, b, a);
}

/// The two names of text under which this node offers its clipboard are text in
/// the sense in which it reads others, whatever their case.
pub proof fn law_offered_types_are_text(mime_type: Seq<char>)
    ensures
        crate::platform::clipboard::is_offered_type(mime_type) <==> mime_type == "text/plain"@
            || mime_type == "text/plain;charset=utf-8"@,
        mime_type.len() == 10 && (forall|i: int|
            0 <= i < 10 ==> crate::identity::pairing::ascii_lower(#[trigger] mime_type[i])
                == "text/plain"@[i]) ==> crate::platform::clipboard::is_plain_text(mime_type),
{
    reveal_strlit("text/plain");
    let plain = "text/plain"@;
    if mime_type.len() == 10 && (forall|i: int|
        0 <= i < 10 ==> crate::identity::pairing::ascii_lower(#[trigger] mime_type[i])
            == plain[i]) {
        assert(crate::identity::pairing::lowered(mime_type) =~= plain);
        assert(crate::identity::pairing::lowered(plain) =~= plain);
    }
}

/// A look at the clipboard tells a text exactly where it differs from what was seen
/// last and is not too long, and an error exactly where it differs from what was
/// told last.
pub proof fn law_only_changes_are_news(
    news: ClipboardNews,
    state: WatchedView,
    text: Seq<char>,
    reason: Seq<char>,
)
    ensures
        crate::platform::clipboard::is_news(news, state, Ok(Some(text))) ==> (news is Changed <==> {
            &&& state.last_seen != Some(text)
            &&& vstd::utf8::encode_utf8(text).len() <= state.maximum_text_bytes
        }),
        crate::platform::clipboard::is_news(news, state, Ok(Some(text))) ==> (news is TooLarge <==> {
            &&& state.last_seen != Some(text)
            &&& vstd::utf8::encode_utf8(text).len() > state.maximum_text_bytes
        }),
        crate::platform::clipboard::is_news(news, state, Ok(Some(text))) ==> (
        news matches ClipboardNews::Changed(told) ==> told@ == text),
        crate::platform::clipboard::is_news(news, state, Ok(None)) ==> news is Nothing,
        crate::platform::clipboard::is_news(news, state, Err(reason)) ==> (news is Unreadable
            <==> state.last_error != Some(reason)),
{
}

/// A text that is seen again after another one, or after the clipboard was empty,
/// is news again. Errors do not make it so.
pub proof fn law_texts_that_come_back_are_news(
    state: WatchedView,
    text: Seq<char>,
    between: Option<Seq<char>>,
    reason: Seq<char>,
    news: ClipboardNews,
    same: ClipboardNews,
)
    requires
        between != Some(text),
        vstd::utf8::encode_utf8(text).len() <= state.maximum_text_bytes,
    ensures
        ({
            let seen = crate::platform::clipboard::watched_after(state, Ok(Some(text)));
            let replaced = crate::platform::clipboard::watched_after(seen, Ok(between));
            let failed = crate::platform::clipboard::watched_after(seen, Err(reason));
            &&& crate::platform::clipboard::is_news(news, replaced, Ok(Some(text)))
                ==> news is Changed
            &&& crate::platform::clipboard::is_news(same, failed, Ok(Some(text)))
                ==> same is Nothing
        }),
{
}

/// Who asks for the selection of this node gets its text in the two text types and
/// is refused otherwise, with the number of the request.
pub proof fn law_selection_requests_are_answered(
    state: PortalView,
    mime_type: Seq<char>,
    serial: u32,
)
    ensures
        crate::platform::portal::transfer_answer(state, true, mime_type, serial) == Some(
            if state.owned is Some && (mime_type == "text/plain"@ || mime_type
                == "text/plain;charset=utf-8"@) {
                RequestView::Write { serial, text: state.owned->Some_0 }
            } else {
                RequestView::Refuse { serial }
            },
        ),
        crate::platform::portal::transfer_answer(state, false, mime_type, serial) is None,
{
}

/// A change of the selection is read exactly where another session made it and
/// offers text; what is read is one of the offered types.
pub proof fn law_foreign_texts_are_read(
    request: Option<RequestView>,
    belongs_to_session: bool,
    session_is_owner: Option<bool>,
    mime_types: Seq<Seq<char>>,
    other: int,
)
    requires
        crate::platform::portal::is_change_request(
            request,
            belongs_to_session,
            session_is_owner,
            mime_types,
        ),
        0 <= other < mime_types.len(),
    ensures
        request is Some ==> belongs_to_session && session_is_owner != Some(true),
        request matches Some(asked) ==> (asked matches RequestView::Read { mime_type }
            && mime_types.contains(mime_type)),
        belongs_to_session && session_is_owner != Some(true) && (
        crate::platform::clipboard::is_utf8_text(mime_types[other])
            || crate::platform::clipboard::is_plain_text(mime_types[other])) ==> request is Some,
{
}

/// An environment lacks nothing exactly where it is a Wayland session with a
/// display and a session bus; otherwise each thing it lacks is named once, in this
/// order.
pub proof fn law_missing_surroundings_are_named(
    session_type: Option<Seq<char>>,
    has_wayland_display: bool,
    has_session_bus: bool,
)
    ensures
        ({
            let issues = crate::platform::report::environment_issues(
                session_type,
                has_wayland_display,
                has_session_bus,
            );
            let wayland = session_type matches Some(kind)
                && crate::platform::report::same_ignoring_case(kind, "wayland"@);
            &&& issues.contains(PlatformIssue::NotWaylandSession) <==> !wayland
            &&& issues.contains(PlatformIssue::MissingWaylandDisplay) <==> !has_wayland_display
            &&& issues.contains(PlatformIssue::MissingSessionBus) <==> !has_session_bus
            &&& issues.len() <= 3
            &&& !wayland ==> issues[0] == PlatformIssue::NotWaylandSession
            &&& !has_session_bus ==> issues.last() == PlatformIssue::MissingSessionBus
            &&& issues.no_duplicates()
        }),
{
    let issues = crate::platform::report::environment_issues(
        session_type,
        has_wayland_display,
        has_session_bus,
    );
    let wayland = crate::platform::report::is_wayland_session(session_type);
    if !wayland {
        assert(issues[0] == PlatformIssue::NotWaylandSession);
    }
    if !has_wayland_display {
        let at: int = if wayland {
            0
        } else {
            1
        };
        assert(issues[at] == PlatformIssue::MissingWaylandDisplay);
    }
    if !has_session_bus {
        assert(issues[issues.len() - 1] == PlatformIssue::MissingSessionBus);
    }
}

/// A space in the name of a type does not matter to whether it is UTF-8 text, nor
/// does the case of its letters, nor what follows.
pub proof fn law_spacing_and_case_of_types_do_not_matter(
    start: Seq<char>,
    rest: Seq<char>,
    written: Seq<char>,
    more: Seq<char>,
)
    requires
        crate::platform::report::same_ignoring_case(start + rest, written),
    ensures
        crate::platform::clipboard::is_utf8_text(start + seq![' '] + rest)
            <==> crate::platform::clipboard::is_utf8_text(start + rest),
        crate::platform::clipboard::is_utf8_text(written)
            <==> crate::platform::clipboard::is_utf8_text(start + rest),
        crate::platform::clipboard::is_utf8_text(start) ==> crate::platform::clipboard::is_utf8_text(
            start + more,
        ),
        crate::platform::clipboard::is_utf8_text("text/plain;charset=utf-8"@),
        !crate::platform::clipboard::is_utf8_text("text/plain"@),
{
    let low = |text: Seq<char>| crate::identity::pairing::lowered(text);
    assert(low(start + seq![' '] + rest) =~= low(start) + seq![' '] + low(rest));
    assert(low(start + rest) =~= low(start) + low(rest));
    assert(low(start + more) =~= low(start) + low(more));
    lemma_without_spaces(low(start) + seq![' '], low(rest));
    lemma_without_spaces(low(start), seq![' ']);
    lemma_without_spaces(low(start), low(rest));
    lemma_without_spaces(low(start), low(more));
    assert(crate::platform::clipboard::without_spaces(seq![' ']) =~= Seq::<char>::empty()) by {
        reveal(Seq::filter);
        assert(seq![' '].drop_last() =~= Seq::<char>::empty());
        assert(crate::platform::clipboard::without_spaces(Seq::<char>::empty()) =~= Seq::<
            char,
        >::empty());
    }
    let bare = crate::platform::clipboard::without_spaces(low(start));
    let name = "text/plain;charset=utf-8"@;
    assert(bare + Seq::<char>::empty() =~= bare);
    if crate::platform::clipboard::is_utf8_text(start) {
        let longer = crate::platform::clipboard::without_spaces(low(start + more));
        assert(longer.take(name.len() as int) =~= bare.take(name.len() as int));
    }
    reveal_strlit("text/plain;charset=utf-8");
    reveal_strlit("text/plain");
    assert(low(name) =~= name);
    assert forall|i: int| 0 <= i < name.len() implies #[trigger] name[i] != ' ' by {}
    lemma_nothing_to_leave_out(name);
    assert(name.take(name.len() as int) =~= name);
    let plain = "text/plain"@;
    assert(low(plain) =~= plain);
    lemma_nothing_to_leave_out(plain);
}

proof fn lemma_without_spaces(a: Seq<char>, b: Seq<char>)
    ensures
        crate::platform::clipboard::without_spaces(a + b)
            == crate::platform::clipboard::without_spaces(a)
            + crate::platform::clipboard::without_spaces(b),
    decreases b.len(),
{
    reveal(Seq::filter);
    if b.len() == 0 {
        assert(a + b =~= a);
        assert(crate::platform::clipboard::without_spaces(b) =~= Seq::<char>::empty());
        assert(crate::platform::clipboard::without_spaces(a) + Seq::<char>::empty()
            =~= crate::platform::clipboard::without_spaces(a));
    } else {
        assert((a + b).drop_last() =~= a + b.drop_last());
        lemma_without_spaces(a, b.drop_last());
        assert(crate::platform::clipboard::without_spaces(a + b)
            =~= crate::platform::clipboard::without_spaces(a)
            + crate::platform::clipboard::without_spaces(b));
    }
}

proof fn lemma_nothing_to_leave_out(text: Seq<char>)
    requires
        forall|i: int| 0 <= i < text.len() ==> #[trigger] text[i] != ' ',
    ensures
        crate::platform::clipboard::without_spaces(text) == text,
    decreases text.len(),
{
    reveal(Seq::filter);
    if text.len() > 0 {
        lemma_nothing_to_leave_out(text.drop_last());
        assert(text[text.len() - 1] != ' ');
        assert(text.drop_last().push(text.last()) =~= text);
    } else {
        assert(crate::platform::clipboard::without_spaces(text) =~= text);
    }
}

/// A selection that was read is told as a change exactly where it is not too long
/// and is text, and then with that text; otherwise as a failure.
pub proof fn law_read_selections_are_told(
    event: crate::platform::clipboard::ClipboardServiceEvent,
    maximum: usize,
    bytes: Seq<u8>,
    reason: Seq<char>,
)
    ensures
        crate::platform::portal::is_selection_event(event, maximum, Ok(bytes)) ==> {
            &&& event is Changed <==> bytes.len() <= maximum && vstd::utf8::valid_utf8(bytes)
            &&& event is Failed <==> !(event is Changed)
            &&& event matches crate::platform::clipboard::ClipboardServiceEvent::Changed { text }
                ==> text@ == vstd::utf8::decode_utf8(bytes)
        },
        crate::platform::portal::is_selection_event(event, maximum, Err(reason)) ==> (event
            matches crate::platform::clipboard::ClipboardServiceEvent::Failed {
            operation: _,
            reason: told,
        } && told@ == reason),
{
}

} // verus!
