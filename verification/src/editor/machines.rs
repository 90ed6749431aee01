//! Placing machines on the canvas.

use vstd::prelude::*;
use vstd::string::*;

use crate::domain::arrangement::ScreenPlacement;
use crate::domain::identity::NodeId;
use crate::editor::config_editor::{ConfigEditor, ConfigRole, LocalDesktop};
use crate::editor::geometry::{
    align_coordinate, alignment_axis, geometries_are_connected, snap_candidates, AlignmentAxis,
    ScreenAlignment, ScreenGeometry,
};
use crate::editor::screen::{ScreenEditor, DEFAULT_HEIGHT, DEFAULT_WIDTH};
use crate::runtime::event::node_text;
use crate::saturating::{
    half_of, saturating_add_i64, saturating_i64_to_i32, saturating_square_i64,
};
use crate::text::decimal_text;

verus! {

/// The first machine of a node, from `from` on.
pub open spec fn first_named(
    screens: Seq<crate::editor::screen::ScreenEditorView>,
    node: Seq<char>,
    from: int,
) -> Option<int>
    decreases screens.len() - from,
{
    if from < 0 || from >= screens.len() {
        None
    } else if screens[from].names(node) {
        Some(from)
    } else {
        first_named(screens, node, from + 1)
    }
}

/// Where the machines lie, if all of them do.
pub open spec fn placed(screens: Seq<crate::editor::screen::ScreenEditorView>) -> Option<
    Seq<ScreenGeometry>,
> {
    if forall|i: int| 0 <= i < screens.len() ==> (#[trigger] screens[i]).geometry() is Some {
        Some(
            screens.map_values(
                |screen: crate::editor::screen::ScreenEditorView| screen.geometry()->0,
            ),
        )
    } else {
        None
    }
}

/// The machine can go: others are left, and they hold together without it.
pub open spec fn can_remove(
    screens: Seq<crate::editor::screen::ScreenEditorView>,
    index: int,
) -> bool {
    &&& screens.len() > 1
    &&& 0 <= index < screens.len()
    &&& match placed(screens.remove(index)) {
        Some(geometries) => crate::editor::geometry::are_connected(geometries),
        None => false,
    }
}

/// Where a machine that new ones are placed beside lies.
pub open spec fn anchor(
    screens: Seq<crate::editor::screen::ScreenEditorView>,
    index: int,
) -> ScreenGeometry {
    let fallback = ScreenGeometry { x: 0, y: 0, width: DEFAULT_WIDTH, height: DEFAULT_HEIGHT };
    if 0 <= index < screens.len() {
        match screens[index].geometry() {
            Some(geometry) => geometry,
            None => fallback,
        }
    } else {
        fallback
    }
}

/// The machines with one more, to the right of the selected one and centered on
/// it.
pub open spec fn with_machine(
    screens: Seq<crate::editor::screen::ScreenEditorView>,
    selected: int,
    node: Seq<char>,
) -> Seq<crate::editor::screen::ScreenEditorView> {
    let beside = anchor(screens, selected);
    screens.push(
        crate::editor::screen::ScreenEditorView::unknown(
            node,
            crate::saturating::clamp_i32(beside.x1()) as int,
            crate::saturating::clamp_i32(
                beside.y + crate::saturating::half(beside.height - DEFAULT_HEIGHT),
            ) as int,
        ),
    )
}

/// Where a machine begins that takes another width: an edge that touches one of
/// the first `count` machines stays where it is, the last of them deciding, or
/// else the center stays.
pub open spec fn resized_x(
    screens: Seq<crate::editor::screen::ScreenEditorView>,
    index: int,
    current: ScreenGeometry,
    width: int,
    count: int,
) -> int
    decreases count,
{
    if count <= 0 {
        current.x + crate::saturating::half(current.width - width)
    } else {
        let earlier = resized_x(screens, index, current, width, count - 1);
        if count - 1 == index {
            earlier
        } else {
            match screens[count - 1].geometry() {
                Some(other) => if current.x == other.x1() {
                    current.x as int
                } else if current.x1() == other.x {
                    other.x - width
                } else {
                    earlier
                },
                None => earlier,
            }
        }
    }
}

/// As [`resized_x`], for the height.
pub open spec fn resized_y(
    screens: Seq<crate::editor::screen::ScreenEditorView>,
    index: int,
    current: ScreenGeometry,
    height: int,
    count: int,
) -> int
    decreases count,
{
    if count <= 0 {
        current.y + crate::saturating::half(current.height - height)
    } else {
        let earlier = resized_y(screens, index, current, height, count - 1);
        if count - 1 == index {
            earlier
        } else {
            match screens[count - 1].geometry() {
                Some(other) => if current.y == other.y1() {
                    current.y as int
                } else if current.y1() == other.y {
                    other.y - height
                } else {
                    earlier
                },
                None => earlier,
            }
        }
    }
}

/// The machines after one of them takes another size.
pub open spec fn resized(
    screens: Seq<crate::editor::screen::ScreenEditorView>,
    index: int,
    width: u32,
    height: u32,
) -> Seq<crate::editor::screen::ScreenEditorView> {
    if !(0 <= index < screens.len()) {
        screens
    } else {
        match screens[index].geometry() {
            None => screens,
            Some(current) => screens.update(
                index,
                crate::editor::screen::ScreenEditorView {
                    width: crate::text::decimal(width as nat),
                    height: crate::text::decimal(height as nat),
                    ..screens[index].at(
                        crate::saturating::clamp_i32(
                            resized_x(screens, index, current, width as int, screens.len() as int),
                        ),
                        crate::saturating::clamp_i32(
                            resized_y(screens, index, current, height as int, screens.len() as int),
                        ),
                    )
                },
            ),
        }
    }
}

/// A machine that is moved, if it lies anywhere.
pub open spec fn shifted(
    screen: crate::editor::screen::ScreenEditorView,
    dx: int,
    dy: int,
) -> crate::editor::screen::ScreenEditorView {
    match screen.geometry() {
        Some(geometry) => screen.at(
            crate::saturating::clamp_i32(geometry.x + dx),
            crate::saturating::clamp_i32(geometry.y + dy),
        ),
        None => screen,
    }
}

/// The machines with the desktop of this node, which keeps its corner while the
/// others move with its edges.
pub open spec fn with_local_desktop(
    screens: Seq<crate::editor::screen::ScreenEditorView>,
    index: int,
    layout: crate::domain::display::LayoutView,
) -> Seq<crate::editor::screen::ScreenEditorView> {
    let wider = resized(screens, index, layout.size.width@, layout.size.height@);
    let moved = match (screens[index].geometry(), wider[index].geometry()) {
        (Some(before), Some(after)) => wider.map_values(
            |screen: crate::editor::screen::ScreenEditorView|
                shifted(screen, before.x - after.x, before.y - after.y),
        ),
        _ => wider,
    };
    moved.update(
        index,
        crate::editor::screen::ScreenEditorView { layout, ..moved[index] },
    )
}

/// The place of this number next to another machine: four for each.
pub open spec fn snap_place(screens: Seq<ScreenGeometry>, index: int, option: int) -> (i32, i32) {
    crate::editor::geometry::snap_candidate(screens[index], screens[option / 4], option % 4)
}

/// The machines with one of them somewhere else.
pub open spec fn with_place(screens: Seq<ScreenGeometry>, index: int, place: (i32, i32)) -> Seq<
    ScreenGeometry,
> {
    screens.update(index, ScreenGeometry { x: place.0, y: place.1, ..screens[index] })
}

/// A machine can be placed there: it overlaps no other, and all of them hold
/// together.
pub open spec fn is_free_place(
    screens: Seq<ScreenGeometry>,
    index: int,
    place: (i32, i32),
) -> bool {
    let there = with_place(screens, index, place);
    &&& forall|i: int|
        0 <= i < screens.len() && i != index ==> !there[index].intersects(#[trigger] screens[i])
    &&& crate::editor::geometry::are_connected(there)
}

pub open spec fn is_snap_option(screens: Seq<ScreenGeometry>, index: int, option: int) -> bool {
    &&& 0 <= option < 4 * screens.len()
    &&& option / 4 != index
    &&& is_free_place(screens, index, snap_place(screens, index, option))
}

/// The square of how far away a place is.
pub open spec fn distance(from: ScreenGeometry, place: (i32, i32)) -> i64 {
    crate::saturating::clamp_i64(
        crate::saturating::clamp_i64((place.0 - from.x) * (place.0 - from.x))
            + crate::saturating::clamp_i64((place.1 - from.y) * (place.1 - from.y)),
    )
}

pub open spec fn snap_distance(screens: Seq<ScreenGeometry>, index: int, option: int) -> i64 {
    distance(screens[index], snap_place(screens, index, option))
}

/// The first of the nearest places that a machine can be placed at.
pub open spec fn is_nearest_option(screens: Seq<ScreenGeometry>, index: int, option: int) -> bool {
    &&& is_snap_option(screens, index, option)
    &&& forall|other: int| #[trigger]
        is_snap_option(screens, index, other) ==> snap_distance(screens, index, option)
            <= snap_distance(screens, index, other) && (other < option ==> snap_distance(
            screens,
            index,
            option,
        ) < snap_distance(screens, index, other))
}

/// `after` are the machines with one of them at the place of this number.
pub open spec fn is_moved_to_option(
    screens: Seq<crate::editor::screen::ScreenEditorView>,
    geometries: Seq<ScreenGeometry>,
    index: int,
    option: int,
    after: Seq<crate::editor::screen::ScreenEditorView>,
) -> bool {
    let (x, y) = snap_place(geometries, index, option);
    after == screens.update(index, screens[index].at(x, y))
}

/// `after` are the machines once one of them was moved to the nearest free place
/// beside another. Where there is none, nothing moves.
pub open spec fn is_snapped(
    screens: Seq<crate::editor::screen::ScreenEditorView>,
    index: int,
    after: Seq<crate::editor::screen::ScreenEditorView>,
) -> bool {
    match placed(screens) {
        Some(geometries) => if 0 <= index < screens.len() && exists|option: int| #[trigger]
            is_snap_option(geometries, index, option) {
            exists|option: int|
                is_nearest_option(geometries, index, option) && #[trigger] is_moved_to_option(
                    screens,
                    geometries,
                    index,
                    option,
                    after,
                )
        } else {
            after == screens
        },
        None => after == screens,
    }
}

/// How a machine can be aligned with the first that it touches, from `from` on.
pub open spec fn axis_from(
    screens: Seq<crate::editor::screen::ScreenEditorView>,
    index: int,
    from: int,
) -> Option<AlignmentAxis>
    decreases screens.len() - from,
{
    if from < 0 || from >= screens.len() {
        None
    } else {
        let here = match (screens[index].geometry(), screens[from].geometry()) {
            (Some(selected), Some(other)) => if from == index {
                None
            } else {
                crate::editor::geometry::axis_between(selected, other, from as usize)
            },
            _ => None,
        };
        match here {
            Some(axis) => Some(axis),
            None => axis_from(screens, index, from + 1),
        }
    }
}

/// How a machine can be aligned with another.
pub open spec fn axis_of(
    screens: Seq<crate::editor::screen::ScreenEditorView>,
    index: int,
) -> Option<AlignmentAxis> {
    if 0 <= index < screens.len() {
        axis_from(screens, index, 0)
    } else {
        None
    }
}

/// Where a machine goes that is aligned.
pub open spec fn aligned_place(
    selected: ScreenGeometry,
    other: ScreenGeometry,
    axis: AlignmentAxis,
    alignment: ScreenAlignment,
) -> (i32, i32) {
    match axis {
        AlignmentAxis::Vertical(_) => (
            selected.x,
            crate::editor::geometry::aligned(
                other.y as int,
                other.height as int,
                selected.height as int,
                alignment,
            ),
        ),
        AlignmentAxis::Horizontal(_) => (
            crate::editor::geometry::aligned(
                other.x as int,
                other.width as int,
                selected.width as int,
                alignment,
            ),
            selected.y,
        ),
    }
}

pub open spec fn neighbor_of(axis: AlignmentAxis) -> int {
    match axis {
        AlignmentAxis::Vertical(index) => index as int,
        AlignmentAxis::Horizontal(index) => index as int,
    }
}

/// The machine at this place overlaps one that is not its neighbor.
pub open spec fn is_obstructed(
    screens: Seq<crate::editor::screen::ScreenEditorView>,
    index: int,
    neighbor: int,
    there: ScreenGeometry,
) -> bool {
    exists|i: int|
        0 <= i < screens.len() && i != index && i != neighbor && match (
        #[trigger] screens[i]).geometry() {
            Some(geometry) => there.intersects(geometry),
            None => false,
        }
}

/// The machines after one of them is aligned with its neighbor, unless another
/// is in the way.
pub open spec fn after_alignment(
    screens: Seq<crate::editor::screen::ScreenEditorView>,
    index: int,
    alignment: ScreenAlignment,
) -> Seq<crate::editor::screen::ScreenEditorView> {
    match axis_of(screens, index) {
        None => screens,
        Some(axis) => {
            let selected = screens[index].geometry()->0;
            let (x, y) = aligned_place(
                selected,
                screens[neighbor_of(axis)].geometry()->0,
                axis,
                alignment,
            );
            if is_obstructed(
                screens,
                index,
                neighbor_of(axis),
                ScreenGeometry { x, y, ..selected },
            ) {
                screens
            } else {
                screens.update(index, screens[index].at(x, y))
            }
        },
    }
}

/// Moves a machine.
fn place_at(screens: &mut Vec<ScreenEditor>, index: usize, x: i32, y: i32)
    requires
        index < old(screens)@.len(),
    ensures
        crate::editor::screen::screen_views(final(screens)@)
            == crate::editor::screen::screen_views(old(screens)@).update(
            index as int,
            old(screens)@[index as int]@.at(x, y),
        ),
{
    let screen = &mut screens[index];
    screen.x = crate::text::signed_text(x);
    screen.y = crate::text::signed_text(y);
    assert(crate::editor::screen::screen_views(screens@)
        =~= crate::editor::screen::screen_views(old(screens)@).update(
        index as int,
        old(screens)@[index as int]@.at(x, y),
    ));
}

/// Where the machines lie, if all of them do.
fn all_geometries(screens: &Vec<ScreenEditor>) -> (geometries: Option<Vec<ScreenGeometry>>)
    ensures
        match geometries {
            Some(geometries) => placed(crate::editor::screen::screen_views(screens@)) == Some(
                geometries@,
            ) && (forall|i: int|
                0 <= i < geometries@.len() ==> (#[trigger] geometries@[i]).has_area()),
            None => placed(crate::editor::screen::screen_views(screens@)) is None,
        },
{
    let ghost views = crate::editor::screen::screen_views(screens@);
    let mut geometries: Vec<ScreenGeometry> = Vec::new();
    let mut index: usize = 0;
    while index < screens.len()
        invariant
            index <= screens@.len(),
            views == crate::editor::screen::screen_views(screens@),
            geometries@.len() == index,
            forall|i: int|
                0 <= i < index ==> (#[trigger] views[i]).geometry() == Some(geometries@[i]),
            forall|i: int| 0 <= i < index ==> (#[trigger] geometries@[i]).has_area(),
        decreases screens@.len() - index,
    {
        assert(views[index as int] == screens@[index as int]@);
        match screens[index].geometry() {
            Some(geometry) => geometries.push(geometry),
            None => {
                assert(views[index as int].geometry() is None);
                return None;
            },
        }
        index += 1;
    }
    assert(views.map_values(
        |screen: crate::editor::screen::ScreenEditorView| screen.geometry()->0,
    ) =~= geometries@);
    Some(geometries)
}

impl ConfigEditor {
    /// Where the first machine of a node stands.
    fn index_of(&self, node: &NodeId) -> (index: Option<usize>)
        ensures
            match index {
                Some(index) => index < self@.screens.len() && first_named(
                    self@.screens,
                    node@,
                    0,
                ) == Some(index as int),
                None => first_named(self@.screens, node@, 0) is None,
            },
    {
        let mut index: usize = 0;
        while index < self.screens.len()
            invariant
                index <= self.screens@.len(),
                first_named(self@.screens, node@, 0) == first_named(
                    self@.screens,
                    node@,
                    index as int,
                ),
            decreases self.screens@.len() - index,
        {
            assert(self@.screens[index as int] == self.screens@[index as int]@);
            if self.screens[index].is_of(node) {
                return Some(index);
            }
            index += 1;
        }
        None
    }

    /// Whether one of the machines is that of a node.
    pub fn contains_node(&self, node: &NodeId) -> (result: bool)
        ensures
            result == (first_named(self@.screens, node@, 0) is Some),
    {
        self.index_of(node).is_some()
    }

    /// Adds a machine to the right of the selected one.
    pub fn add_screen(&mut self, node: String)
        requires
            old(self)@.screens.len() < usize::MAX,
        ensures
            final(self)@ == (crate::editor::config_editor::EditorView {
                screens: with_machine(
                    old(self)@.screens,
                    old(self)@.selected_screen as int,
                    node@,
                ),
                selected_screen: old(self)@.screens.len() as usize,
                ..old(self)@
            }),
    {
        let fallback = ScreenGeometry { x: 0, y: 0, width: DEFAULT_WIDTH, height: DEFAULT_HEIGHT };
        let selected = if self.selected_screen < self.screens.len() {
            assert(self@.screens[self.selected_screen as int]
                == self.screens@[self.selected_screen as int]@);
            match self.screens[self.selected_screen].geometry() {
                Some(geometry) => geometry,
                None => fallback,
            }
        } else {
            fallback
        };
        let x: i32 = saturating_i64_to_i32(selected.right());
        let y: i32 = saturating_i64_to_i32(
            selected.top() + half_of(selected.height as i64 - DEFAULT_HEIGHT as i64),
        );
        self.selected_screen = self.screens.len();
        self.screens.push(ScreenEditor::from_node(node, x, y));
        assert(self@.screens =~= with_machine(
            old(self)@.screens,
            old(self)@.selected_screen as int,
            node@,
        ));
    }

    /// Removes the selected machine, if it can go.
    pub fn remove_selected(&mut self)
        ensures
            ({
                let before = old(self)@;
                let selected = before.selected_screen as int;
                final(self)@ == if can_remove(before.screens, selected) {
                    crate::editor::config_editor::EditorView {
                        screens: before.screens.remove(selected),
                        selected_screen: if selected < before.screens.len() - 1 {
                            before.selected_screen
                        } else {
                            (before.screens.len() - 2) as usize
                        },
                        ..before
                    }
                } else {
                    before
                }
            }),
    {
        if !self.can_remove_screen(self.selected_screen) {
            return;
        }
        let _ = self.screens.remove(self.selected_screen);
        if self.selected_screen >= self.screens.len() {
            self.selected_screen = self.screens.len() - 1;
        }
        assert(self@.screens =~= old(self)@.screens.remove(old(self)@.selected_screen as int));
    }

    /// Whether a machine can go.
    pub fn can_remove_screen(&self, index: usize) -> (result: bool)
        ensures
            result == can_remove(self@.screens, index as int),
    {
        if self.screens.len() <= 1 || index >= self.screens.len() {
            return false;
        }
        let ghost rest = self@.screens.remove(index as int);
        let mut geometries: Vec<ScreenGeometry> = Vec::new();
        let mut candidate: usize = 0;
        while candidate < self.screens.len()
            invariant
                index < self.screens@.len(),
                candidate <= self.screens@.len(),
                rest == self@.screens.remove(index as int),
                geometries@.len() == if candidate <= index {
                    candidate as int
                } else {
                    candidate - 1
                },
                forall|i: int|
                    0 <= i < geometries@.len() ==> (#[trigger] rest[i]).geometry() == Some(
                        geometries@[i],
                    ),
            decreases self.screens@.len() - candidate,
        {
            if candidate != index {
                assert(self@.screens[candidate as int] == self.screens@[candidate as int]@);
                assert(rest[geometries@.len() as int] == self@.screens[candidate as int]);
                match self.screens[candidate].geometry() {
                    Some(geometry) => geometries.push(geometry),
                    None => {
                        assert(rest[geometries@.len() as int].geometry() is None);
                        return false;
                    },
                }
            }
            candidate += 1;
        }
        assert(rest.map_values(
            |screen: crate::editor::screen::ScreenEditorView| screen.geometry()->0,
        ) =~= geometries@);
        geometries_are_connected(geometries.as_slice())
    }

    /// Takes over the desktop of this node.
    pub fn set_local_desktop(&mut self, local_node: &NodeId, desktop: LocalDesktop) -> (result:
        Result<(), String>)
        ensures
            match first_named(old(self)@.screens, local_node@, 0) {
                Some(index) => result is Ok && final(self)@ == (
                crate::editor::config_editor::EditorView {
                    screens: with_local_desktop(old(self)@.screens, index, desktop.layout@),
                    selected_screen: index as usize,
                    ..old(self)@
                }),
                None => final(self)@ == old(self)@ && result is Err && result->Err_0@
                    == "Add the local node `"@ + local_node@ + "` to the topology first"@,
            },
    {
        let index: usize = match self.index_of(local_node) {
            Some(index) => index,
            None => {
                return Err(
                    node_text("Add the local node `", local_node, "` to the topology first"),
                );
            },
        };
        let ghost before = self@.screens;
        assert(before[index as int] == self.screens@[index as int]@);
        let previous = self.screens[index].geometry();
        let size = desktop.size();
        self.resize_screen(index, size.width.get(), size.height.get());
        let ghost wider = self@.screens;
        assert(wider.len() == before.len());
        assert(wider[index as int] == self.screens@[index as int]@);
        if let (Some(previous), Some(updated)) = (previous, self.screens[index].geometry()) {
            let dx: i64 = previous.left() - updated.left();
            let dy: i64 = previous.top() - updated.top();
            self.shift_all(dx, dy);
        }
        let ghost moved = self@.screens;
        assert(moved.len() == before.len() && moved.len() == self.screens@.len());
        assert(moved[index as int] == self.screens@[index as int]@);
        let screen = &mut self.screens[index];
        screen.layout = desktop.layout;
        self.selected_screen = index;
        assert(self@.screens =~= with_local_desktop(before, index as int, desktop.layout@));
        Ok(())
    }

    /// Moves every machine that lies somewhere.
    fn shift_all(&mut self, dx: i64, dy: i64)
        requires
            -0x1_0000_0000 < dx < 0x1_0000_0000,
            -0x1_0000_0000 < dy < 0x1_0000_0000,
        ensures
            final(self)@ == (crate::editor::config_editor::EditorView {
                screens: old(self)@.screens.map_values(
                    |screen: crate::editor::screen::ScreenEditorView|
                        shifted(screen, dx as int, dy as int),
                ),
                ..old(self)@
            }),
    {
        let mut index: usize = 0;
        while index < self.screens.len()
            invariant
                index <= self.screens@.len(),
                self.screens@.len() == old(self).screens@.len(),
                self@ == (crate::editor::config_editor::EditorView {
                    screens: self@.screens,
                    ..old(self)@
                }),
                -0x1_0000_0000 < dx < 0x1_0000_0000,
                -0x1_0000_0000 < dy < 0x1_0000_0000,
                forall|i: int|
                    0 <= i < index ==> #[trigger] self@.screens[i] == shifted(
                        old(self)@.screens[i],
                        dx as int,
                        dy as int,
                    ),
                forall|i: int|
                    index <= i < self.screens@.len() ==> #[trigger] self@.screens[i] == old(
                        self,
                    )@.screens[i],
            decreases self.screens@.len() - index,
        {
            let ghost earlier = self@.screens;
            assert(self@.screens[index as int] == self.screens@[index as int]@);
            if let Some(geometry) = self.screens[index].geometry() {
                let x: i32 = saturating_i64_to_i32(geometry.left() + dx);
                let y: i32 = saturating_i64_to_i32(geometry.top() + dy);
                place_at(&mut self.screens, index, x, y);
                assert(self@.screens == earlier.update(
                    index as int,
                    earlier[index as int].at(x, y),
                ));
            }
            index += 1;
        }
        assert(self@.screens =~= old(self)@.screens.map_values(
            |screen: crate::editor::screen::ScreenEditorView|
                shifted(screen, dx as int, dy as int),
        ));
    }

    /// Takes over the desktop of an agent.
    pub fn set_agent_desktop(&mut self, desktop: LocalDesktop)
        ensures
            final(self)@ == (crate::editor::config_editor::EditorView {
                agent_width: crate::text::decimal(desktop.layout@.size.width@ as nat),
                agent_height: crate::text::decimal(desktop.layout@.size.height@ as nat),
                agent_layout: desktop.layout@,
                ..old(self)@
            }),
    {
        let size = desktop.size();
        self.agent_width = decimal_text(size.width.get() as u64);
        self.agent_height = decimal_text(size.height.get() as u64);
        self.agent_layout = desktop.layout;
    }

    /// Takes over the desktop of this node, in the role that is edited.
    pub fn apply_local_desktop(&mut self, local_node: &NodeId, desktop: LocalDesktop) -> (result:
        Result<(), String>)
        ensures
            match old(self)@.role {
                ConfigRole::Controller => match first_named(
                    old(self)@.screens,
                    local_node@,
                    0,
                ) {
                    Some(index) => result is Ok && final(self)@ == (
                    crate::editor::config_editor::EditorView {
                        screens: with_local_desktop(old(self)@.screens, index, desktop.layout@),
                        selected_screen: index as usize,
                        ..old(self)@
                    }),
                    None => final(self)@ == old(self)@ && result is Err && result->Err_0@
                        == "Add the local node `"@ + local_node@ + "` to the topology first"@,
                },
                ConfigRole::Agent => result is Ok && final(self)@ == (
                crate::editor::config_editor::EditorView {
                    agent_width: crate::text::decimal(desktop.layout@.size.width@ as nat),
                    agent_height: crate::text::decimal(desktop.layout@.size.height@ as nat),
                    agent_layout: desktop.layout@,
                    ..old(self)@
                }),
            },
    {
        match self.role {
            ConfigRole::Controller => self.set_local_desktop(local_node, desktop),
            ConfigRole::Agent => {
                self.set_agent_desktop(desktop);
                Ok(())
            },
        }
    }

    /// Shows where a machine is placed now.
    pub fn update_screen(&mut self, placement: &ScreenPlacement)
        ensures
            final(self)@ == match first_named(old(self)@.screens, placement@.node, 0) {
                Some(index) => crate::editor::config_editor::EditorView {
                    screens: old(self)@.screens.update(
                        index,
                        crate::editor::screen::ScreenEditorView {
                            node: old(self)@.screens[index].node,
                            ..crate::editor::screen::ScreenEditorView::of_placement(placement@)
                        },
                    ),
                    selected_screen: index as usize,
                    ..old(self)@
                },
                None => old(self)@,
            },
    {
        let index: usize = match self.index_of(&placement.node) {
            Some(index) => index,
            None => {
                return;
            },
        };
        let ghost before = self@.screens;
        assert(before[index as int] == self.screens@[index as int]@);
        let shown = ScreenEditor::from_placement(placement);
        let screen = &mut self.screens[index];
        screen.x = shown.x;
        screen.y = shown.y;
        screen.width = shown.width;
        screen.height = shown.height;
        screen.layout = shown.layout;
        self.selected_screen = index;
        assert(self@.screens =~= before.update(
            index as int,
            crate::editor::screen::ScreenEditorView {
                node: before[index as int].node,
                ..crate::editor::screen::ScreenEditorView::of_placement(placement@)
            },
        ));
    }

    /// Gives a machine another size.
    pub fn resize_screen(&mut self, index: usize, width: u32, height: u32)
        ensures
            final(self)@ == (crate::editor::config_editor::EditorView {
                screens: resized(old(self)@.screens, index as int, width, height),
                ..old(self)@
            }),
    {
        if index >= self.screens.len() {
            return;
        }
        let ghost before = self@.screens;
        assert(before[index as int] == self.screens@[index as int]@);
        let current = match self.screens[index].geometry() {
            Some(current) => current,
            None => {
                return;
            },
        };
        let mut x: i64 = current.left() + half_of(current.width as i64 - width as i64);
        let mut y: i64 = current.top() + half_of(current.height as i64 - height as i64);
        let mut other_index: usize = 0;
        while other_index < self.screens.len()
            invariant
                self@ == old(self)@,
                before == self@.screens,
                other_index <= self.screens@.len(),
                -0x4_0000_0000 < x < 0x4_0000_0000,
                -0x4_0000_0000 < y < 0x4_0000_0000,
                x == resized_x(before, index as int, current, width as int, other_index as int),
                y == resized_y(before, index as int, current, height as int, other_index as int),
            decreases self.screens@.len() - other_index,
        {
            assert(before[other_index as int] == self.screens@[other_index as int]@);
            if other_index != index {
                if let Some(other) = self.screens[other_index].geometry() {
                    if current.left() == other.right() {
                        x = current.left();
                    } else if current.right() == other.left() {
                        x = other.left() - width as i64;
                    }
                    if current.top() == other.bottom() {
                        y = current.top();
                    } else if current.bottom() == other.top() {
                        y = other.top() - height as i64;
                    }
                }
            }
            other_index += 1;
        }
        place_at(
            &mut self.screens,
            index,
            saturating_i64_to_i32(x),
            saturating_i64_to_i32(y),
        );
        let ghost moved = self@.screens;
        assert(moved.len() == before.len() && moved.len() == self.screens@.len());
        assert(moved[index as int] == self.screens@[index as int]@);
        let ghost earlier = self.screens@;
        let screen = &mut self.screens[index];
        screen.width = decimal_text(width as u64);
        screen.height = decimal_text(height as u64);
        proof {
            let there = before[index as int].at(
                crate::saturating::clamp_i32(x as int),
                crate::saturating::clamp_i32(y as int),
            );
            assert(moved == before.update(index as int, there));
            let wider = crate::editor::screen::ScreenEditorView {
                width: crate::text::decimal(width as nat),
                height: crate::text::decimal(height as nat),
                ..there
            };
            assert(self@.screens[index as int] == wider);
            assert forall|i: int| 0 <= i < before.len() && i != index implies
                #[trigger] self@.screens[i] == before[i] by {
                assert(self.screens@[i] == earlier[i]);
                assert(moved[i] == earlier[i]@);
            }
            assert(self@.screens =~= before.update(index as int, wider));
            assert(resized(before, index as int, width, height) == before.update(
                index as int,
                wider,
            ));
        }
    }

    /// Moves a machine.
    pub fn move_screen(&mut self, index: usize, x: i32, y: i32)
        ensures
            final(self)@ == if index < old(self)@.screens.len() {
                crate::editor::config_editor::EditorView {
                    screens: old(self)@.screens.update(
                        index as int,
                        old(self)@.screens[index as int].at(x, y),
                    ),
                    ..old(self)@
                }
            } else {
                old(self)@
            },
    {
        if index < self.screens.len() {
            assert(self@.screens[index as int] == self.screens@[index as int]@);
            place_at(&mut self.screens, index, x, y);
        }
    }

    /// Moves a machine to the nearest free place beside another.
    pub fn snap_screen(&mut self, index: usize)
        ensures
            final(self)@ == (crate::editor::config_editor::EditorView {
                screens: final(self)@.screens,
                ..old(self)@
            }),
            is_snapped(old(self)@.screens, index as int, final(self)@.screens),
    {
        if index >= self.screens.len() {
            return;
        }
        let geometries = match all_geometries(&self.screens) {
            Some(geometries) => geometries,
            None => {
                return;
            },
        };
        let ghost before = self@.screens;
        assert(placed(before) == Some(geometries@));
        match nearest_place(&geometries, index) {
            Some((x, y)) => {
                self.move_screen(index, x, y);
                proof {
                    let option = choose|option: int| #[trigger]
                        is_nearest_option(geometries@, index as int, option) && (x, y)
                            == snap_place(geometries@, index as int, option);
                    let all = placed(before)->0;
                    assert(all == geometries@);
                    assert(is_snap_option(all, index as int, option));
                    assert(is_nearest_option(all, index as int, option));
                    assert(is_moved_to_option(before, all, index as int, option, self@.screens));
                    assert(is_snapped(before, index as int, self@.screens));
                }
            },
            None => {
                assert(is_snapped(before, index as int, self@.screens));
            },
        }
    }

    /// How a machine can be aligned with another.
    pub fn alignment_axis(&self, index: usize) -> (axis: Option<AlignmentAxis>)
        ensures
            axis == axis_of(self@.screens, index as int),
            axis matches Some(axis) ==> {
                &&& 0 <= neighbor_of(axis) < self@.screens.len()
                &&& self@.screens[index as int].geometry() is Some
                &&& self@.screens[neighbor_of(axis)].geometry() is Some
            },
    {
        if index >= self.screens.len() {
            return None;
        }
        assert(self@.screens[index as int] == self.screens@[index as int]@);
        let selected = self.screens[index].geometry();
        let mut other: usize = 0;
        while other < self.screens.len()
            invariant
                index < self.screens@.len(),
                other <= self.screens@.len(),
                selected == self@.screens[index as int].geometry(),
                axis_from(self@.screens, index as int, 0) == axis_from(
                    self@.screens,
                    index as int,
                    other as int,
                ),
            decreases self.screens@.len() - other,
        {
            assert(self@.screens[other as int] == self.screens@[other as int]@);
            if other != index {
                if let (Some(selected), Some(geometry)) = (
                    selected,
                    self.screens[other].geometry(),
                ) {
                    let axis = alignment_axis(selected, geometry, other);
                    if axis.is_some() {
                        return axis;
                    }
                }
            }
            other += 1;
        }
        None
    }

    /// Aligns a machine with its neighbor, unless another is in the way.
    pub fn align_screen(&mut self, index: usize, alignment: ScreenAlignment)
        ensures
            final(self)@ == (crate::editor::config_editor::EditorView {
                screens: after_alignment(old(self)@.screens, index as int, alignment),
                ..old(self)@
            }),
    {
        let axis = match self.alignment_axis(index) {
            Some(axis) => axis,
            None => {
                return;
            },
        };
        let neighbor: usize = match axis {
            AlignmentAxis::Vertical(neighbor) => neighbor,
            AlignmentAxis::Horizontal(neighbor) => neighbor,
        };
        assert(index < self.screens@.len());
        assert(self@.screens[index as int] == self.screens@[index as int]@);
        assert(self@.screens[neighbor as int] == self.screens@[neighbor as int]@);
        let (selected, other) = match (
            self.screens[index].geometry(),
            self.screens[neighbor].geometry(),
        ) {
            (Some(selected), Some(other)) => (selected, other),
            _ => {
                return;
            },
        };
        let (x, y) = match axis {
            AlignmentAxis::Vertical(_) => (
                selected.x,
                align_coordinate(other.y, other.height, selected.height, alignment),
            ),
            AlignmentAxis::Horizontal(_) => (
                align_coordinate(other.x, other.width, selected.width, alignment),
                selected.y,
            ),
        };
        let candidate = ScreenGeometry { x, y, width: selected.width, height: selected.height };
        let mut place: usize = 0;
        while place < self.screens.len()
            invariant
                self@ == old(self)@,
                place <= self.screens@.len(),
                forall|i: int|
                    0 <= i < place && i != index && i != neighbor ==> match (
                    #[trigger] self@.screens[i]).geometry() {
                        Some(geometry) => !candidate.intersects(geometry),
                        None => true,
                    },
                axis_of(self@.screens, index as int) == Some(axis),
                neighbor == neighbor_of(axis),
                self@.screens[index as int].geometry() == Some(selected),
                self@.screens[neighbor as int].geometry() == Some(other),
                (x, y) == aligned_place(selected, other, axis, alignment),
                candidate == (ScreenGeometry { x, y, ..selected }),
            decreases self.screens@.len() - place,
        {
            assert(self@.screens[place as int] == self.screens@[place as int]@);
            if place != index && place != neighbor {
                if let Some(geometry) = self.screens[place].geometry() {
                    if candidate.overlaps(geometry) {
                        assert(is_obstructed(
                            self@.screens,
                            index as int,
                            neighbor as int,
                            candidate,
                        ));
                        return;
                    }
                }
            }
            place += 1;
        }
        assert(!is_obstructed(self@.screens, index as int, neighbor as int, candidate));
        self.move_screen(index, x, y);
    }
}

/// Whether a machine can be placed there.
fn is_free(geometries: &Vec<ScreenGeometry>, index: usize, x: i32, y: i32) -> (result: bool)
    requires
        index < geometries@.len(),
    ensures
        result == is_free_place(geometries@, index as int, (x, y)),
{
    let moved = geometries[index];
    let candidate = ScreenGeometry { x, y, width: moved.width, height: moved.height };
    let ghost there = with_place(geometries@, index as int, (x, y));
    assert(there[index as int] == candidate);
    let mut placed: Vec<ScreenGeometry> = Vec::new();
    let mut other: usize = 0;
    while other < geometries.len()
        invariant
            index < geometries@.len(),
            other <= geometries@.len(),
            placed@.len() == other,
            there == with_place(geometries@, index as int, (x, y)),
            there[index as int] == candidate,
            forall|i: int| 0 <= i < other ==> #[trigger] placed@[i] == there[i],
            forall|i: int|
                0 <= i < other && i != index ==> !candidate.intersects(#[trigger] geometries@[i]),
        decreases geometries@.len() - other,
    {
        if other == index {
            placed.push(candidate);
        } else {
            if candidate.overlaps(geometries[other]) {
                return false;
            }
            placed.push(geometries[other]);
        }
        other += 1;
    }
    assert(placed@ =~= there);
    geometries_are_connected(placed.as_slice())
}

/// The nearest free place beside another machine.
fn nearest_place(geometries: &Vec<ScreenGeometry>, index: usize) -> (place: Option<(i32, i32)>)
    requires
        index < geometries@.len(),
        forall|i: int| 0 <= i < geometries@.len() ==> (#[trigger] geometries@[i]).has_area(),
    ensures
        match place {
            Some(place) => exists|option: int| #[trigger]
                is_nearest_option(geometries@, index as int, option) && place == snap_place(
                    geometries@,
                    index as int,
                    option,
                ),
            None => forall|option: int|
                !#[trigger] is_snap_option(geometries@, index as int, option),
        },
{
    let moved = geometries[index];
    let mut closest: Option<((i32, i32), i64)> = None;
    let ghost mut chosen: int = 0;
    let mut other: usize = 0;
    while other < geometries.len()
        invariant
            index < geometries@.len(),
            moved == geometries@[index as int],
            forall|i: int| 0 <= i < geometries@.len() ==> (#[trigger] geometries@[i]).has_area(),
            other <= geometries@.len(),
            is_nearest_so_far(geometries@, index as int, closest, chosen, 4 * other),
        decreases geometries@.len() - other,
    {
        if other != index {
            let places = snap_candidates(moved, geometries[other]);
            let mut side: usize = 0;
            while side < 4
                invariant
                    index < geometries@.len(),
                    moved == geometries@[index as int],
                    other < geometries@.len(),
                    other != index,
                    side <= 4,
                    forall|side: int|
                        0 <= side < 4 ==> #[trigger] places@[side]
                            == crate::editor::geometry::snap_candidate(
                            moved,
                            geometries@[other as int],
                            side,
                        ),
                    is_nearest_so_far(geometries@, index as int, closest, chosen, 4 * other + side),
                decreases 4 - side,
            {
                let ghost option = 4 * other + side;
                let (x, y) = places[side];
                proof {
                    assert(option / 4 == other && option % 4 == side);
                    assert(snap_place(geometries@, index as int, option) == (x, y));
                }
                if is_free(geometries, index, x, y) {
                    assert(is_snap_option(geometries@, index as int, option));
                    let dx: i64 = x as i64 - moved.left();
                    let dy: i64 = y as i64 - moved.top();
                    let distance: i64 = saturating_add_i64(
                        saturating_square_i64(dx),
                        saturating_square_i64(dy),
                    );
                    assert(distance == snap_distance(geometries@, index as int, option));
                    let nearer = match closest {
                        Some((_, least)) => distance < least,
                        None => true,
                    };
                    if nearer {
                        closest = Some(((x, y), distance));
                        proof {
                            chosen = option;
                        }
                    }
                } else {
                    assert(!is_snap_option(geometries@, index as int, option));
                }
                side += 1;
            }
        } else {
            proof {
                assert forall|option: int| 4 * other <= option < 4 * other + 4 implies
                    !#[trigger] is_snap_option(geometries@, index as int, option) by {
                    assert(option / 4 == other);
                }
            }
        }
        other += 1;
    }
    match closest {
        Some((place, _)) => {
            assert(is_nearest_option(geometries@, index as int, chosen));
            Some(place)
        },
        None => None,
    }
}

/// What is known of the nearest place after the first `count` options.
spec fn is_nearest_so_far(
    geometries: Seq<ScreenGeometry>,
    index: int,
    closest: Option<((i32, i32), i64)>,
    chosen: int,
    count: int,
) -> bool {
    match closest {
        Some((place, least)) => {
            &&& 0 <= chosen < count
            &&& is_snap_option(geometries, index, chosen)
            &&& place == snap_place(geometries, index, chosen)
            &&& least == snap_distance(geometries, index, chosen)
            &&& forall|other: int|
                other < count && #[trigger] is_snap_option(geometries, index, other) ==> least
                    <= snap_distance(geometries, index, other) && (other < chosen ==> least
                    < snap_distance(geometries, index, other))
        },
        None => forall|other: int|
            other < count ==> !#[trigger] is_snap_option(geometries, index, other),
    }
}

} // verus!
