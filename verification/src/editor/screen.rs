//! The fields that describe one machine.

use vstd::prelude::*;
use vstd::string::*;

use crate::domain::arrangement::ScreenPlacement;
use crate::domain::display::{DesktopLayout, DesktopLayoutError};
use crate::domain::geometry::{Point, Size};
use crate::domain::identity::{NodeId, NodeIdError};
use crate::domain::nonzero::NonZeroU32;
use crate::editor::geometry::ScreenGeometry;
use crate::text::{decimal_text, parse_i32, parse_u32, push_decimal, signed_text, trim, NumberError};

verus! {

pub const DEFAULT_WIDTH: u32 = 1920;

pub const DEFAULT_HEIGHT: u32 = 1080;

/// Why a text is not the length of a side.
#[derive(Clone, Copy, Debug, PartialEq, Eq, Structural)]
pub enum DimensionError {
    Number(NumberError),
    Zero,
}

impl DimensionError {
    /// What is wrong with the field of this label, in words.
    pub open spec fn text(self, label: Seq<char>) -> Seq<char> {
        match self {
            DimensionError::Number(error) => label + ": "@ + error.text(),
            DimensionError::Zero => label + " must be greater than zero"@,
        }
    }

    /// Appends what is wrong with the field whose label stands there.
    pub fn complete(&self, message: &mut String)
        ensures
            final(message)@ == self.text(old(message)@),
    {
        match self {
            DimensionError::Number(error) => {
                message.append(": ");
                message.append(error.message());
            },
            DimensionError::Zero => message.append(" must be greater than zero"),
        }
    }
}

/// What a text says as the length of a side.
pub open spec fn dimension(text: Seq<char>) -> Result<u32, DimensionError> {
    match crate::text::parsed_u32(crate::text::trimmed(text)) {
        Ok(value) => if value == 0 {
            Err(DimensionError::Zero)
        } else {
            Ok(value)
        },
        Err(error) => Err(DimensionError::Number(error)),
    }
}

/// What a text says as a coordinate.
pub open spec fn coordinate(text: Seq<char>) -> Result<i32, NumberError> {
    crate::text::parsed_i32(crate::text::trimmed(text))
}

pub fn parse_nonzero(value: &str) -> (result: Result<NonZeroU32, DimensionError>)
    ensures
        match result {
            Ok(length) => dimension(value@) == Ok::<u32, DimensionError>(length@),
            Err(error) => dimension(value@) == Err::<u32, DimensionError>(error),
        },
{
    match parse_u32(trim(value)) {
        Ok(value) => match NonZeroU32::new(value) {
            Some(length) => Ok(length),
            None => Err(DimensionError::Zero),
        },
        Err(error) => Err(DimensionError::Number(error)),
    }
}

/// The size that a desktop has until more is known of it.
pub open spec fn default_size() -> Size {
    Size { width: NonZeroU32::of(DEFAULT_WIDTH), height: NonZeroU32::of(DEFAULT_HEIGHT) }
}

/// A desktop of one monitor that nothing is known of.
pub(crate) fn default_layout() -> (layout: DesktopLayout)
    ensures
        layout@ == crate::domain::display::LayoutView::whole(default_size()),
{
    let width = match NonZeroU32::new(DEFAULT_WIDTH) {
        Some(width) => width,
        None => NonZeroU32::min_value(),
    };
    let height = match NonZeroU32::new(DEFAULT_HEIGHT) {
        Some(height) => height,
        None => NonZeroU32::min_value(),
    };
    proof {
        NonZeroU32::lemma_of(DEFAULT_WIDTH);
        NonZeroU32::lemma_of(DEFAULT_HEIGHT);
        crate::domain::nonzero::lemma_nonzero_u32_identity(width, NonZeroU32::of(DEFAULT_WIDTH));
        crate::domain::nonzero::lemma_nonzero_u32_identity(height, NonZeroU32::of(DEFAULT_HEIGHT));
    }
    DesktopLayout::single(Size::new(width, height))
}

/// The fields of one machine. The layout is what is known of the monitors; it
/// counts as long as the size is the one that is written in the fields.
#[derive(Debug)]
pub struct ScreenEditor {
    pub node: String,
    pub x: String,
    pub y: String,
    pub width: String,
    pub height: String,
    pub layout: DesktopLayout,
}

pub ghost struct ScreenEditorView {
    pub node: Seq<char>,
    pub x: Seq<char>,
    pub y: Seq<char>,
    pub width: Seq<char>,
    pub height: Seq<char>,
    pub layout: crate::domain::display::LayoutView,
}

impl View for ScreenEditor {
    type V = ScreenEditorView;

    open spec fn view(&self) -> ScreenEditorView {
        ScreenEditorView {
            node: self.node@,
            x: self.x@,
            y: self.y@,
            width: self.width@,
            height: self.height@,
            layout: self.layout@,
        }
    }
}

/// The monitors of a desktop of this size: those that are known, if the size is
/// theirs, or else one.
pub open spec fn layout_for(known: crate::domain::display::LayoutView, size: Size) ->
    crate::domain::display::LayoutView {
    if known.size == size {
        known
    } else {
        crate::domain::display::LayoutView::whole(size)
    }
}

pub(crate) fn fitting_layout(known: &DesktopLayout, size: Size) -> (layout: DesktopLayout)
    ensures
        layout@ == layout_for(known@, size),
{
    if known.size() == size {
        known.clone()
    } else {
        DesktopLayout::single(size)
    }
}

impl ScreenEditorView {
    /// The fields of a machine whose desktop is not known.
    pub open spec fn unknown(node: Seq<char>, x: int, y: int) -> ScreenEditorView {
        ScreenEditorView {
            node,
            x: crate::text::signed_decimal(x),
            y: crate::text::signed_decimal(y),
            width: crate::text::decimal(DEFAULT_WIDTH as nat),
            height: crate::text::decimal(DEFAULT_HEIGHT as nat),
            layout: crate::domain::display::LayoutView::whole(default_size()),
        }
    }

    /// The fields that a placed machine is shown with.
    pub open spec fn of_placement(
        placement: crate::domain::arrangement::PlacementView,
    ) -> ScreenEditorView {
        ScreenEditorView {
            node: placement.node,
            x: crate::text::signed_decimal(placement.bounds.origin.x as int),
            y: crate::text::signed_decimal(placement.bounds.origin.y as int),
            width: crate::text::decimal(placement.bounds.size.width@ as nat),
            height: crate::text::decimal(placement.bounds.size.height@ as nat),
            layout: placement.layout,
        }
    }

    /// The machine somewhere else.
    pub open spec fn at(self, x: i32, y: i32) -> ScreenEditorView {
        ScreenEditorView {
            x: crate::text::signed_decimal(x as int),
            y: crate::text::signed_decimal(y as int),
            ..self
        }
    }

    /// Where the fields place the machine, if they do.
    pub open spec fn geometry(self) -> Option<ScreenGeometry> {
        match (
            dimension(self.width),
            dimension(self.height),
            coordinate(self.x),
            coordinate(self.y),
        ) {
            (Ok(width), Ok(height), Ok(x), Ok(y)) => Some(ScreenGeometry { x, y, width, height }),
            _ => None,
        }
    }

    /// The fields are those of this node.
    pub open spec fn names(self, node: Seq<char>) -> bool {
        crate::text::trimmed(self.node) == node
    }

    pub open spec fn node_bytes(self) -> Seq<u8> {
        vstd::utf8::encode_utf8(crate::text::trimmed(self.node))
    }

    pub open spec fn has_node(self) -> bool {
        crate::domain::identity::is_node_id(self.node_bytes())
    }

    /// `placement` is what the fields say.
    pub open spec fn places(self, placement: crate::domain::arrangement::PlacementView) -> bool {
        &&& self.has_node()
        &&& placement.node == crate::text::trimmed(self.node)
        &&& self.geometry() == Some(
            ScreenGeometry {
                x: placement.bounds.origin.x,
                y: placement.bounds.origin.y,
                width: placement.bounds.size.width@,
                height: placement.bounds.size.height@,
            },
        )
        &&& placement.layout == layout_for(self.layout, placement.bounds.size)
        &&& placement.layout.is_valid()
    }

    /// The fields say where a machine is placed.
    pub open spec fn is_complete(self) -> bool {
        exists|placement: crate::domain::arrangement::PlacementView| self.places(placement)
    }
}

/// The views of the machines.
pub open spec fn screen_views(screens: Seq<ScreenEditor>) -> Seq<ScreenEditorView> {
    screens.map_values(|screen: ScreenEditor| screen@)
}

/// Why the fields of a machine are refused.
#[derive(Clone, Copy, Debug, PartialEq, Eq, Structural)]
pub enum ScreenError {
    Node(NodeIdError),
    X(NumberError),
    Y(NumberError),
    Width(DimensionError),
    Height(DimensionError),
    Layout(DesktopLayoutError),
}

impl ScreenError {
    /// This is what the fields are refused with. The fields are looked at in the
    /// order of the errors.
    pub open spec fn applies_to(self, screen: ScreenEditorView) -> bool {
        match self {
            ScreenError::Node(error) => !screen.has_node() && error.applies_to(
                screen.node_bytes(),
            ),
            ScreenError::X(error) => screen.has_node() && coordinate(screen.x) == Err::<
                i32,
                NumberError,
            >(error),
            ScreenError::Y(error) => screen.has_node() && coordinate(screen.x) is Ok && coordinate(
                screen.y,
            ) == Err::<i32, NumberError>(error),
            ScreenError::Width(error) => screen.has_node() && coordinate(screen.x) is Ok
                && coordinate(screen.y) is Ok && dimension(screen.width) == Err::<
                u32,
                DimensionError,
            >(error),
            ScreenError::Height(error) => screen.has_node() && coordinate(screen.x) is Ok
                && coordinate(screen.y) is Ok && dimension(screen.width) is Ok && dimension(
                screen.height,
            ) == Err::<u32, DimensionError>(error),
            ScreenError::Layout(error) => screen.has_node() && screen.geometry() is Some && exists|
                size: Size,
            |
                size.width@ == screen.geometry()->0.width && size.height@
                    == screen.geometry()->0.height && error.applies_to(
                    #[trigger] layout_for(screen.layout, size),
                ) && !layout_for(screen.layout, size).is_valid(),
        }
    }

    /// What is wrong with the machine of this number, in words.
    pub open spec fn text(self, number: nat) -> Seq<char> {
        let machine = "Machine "@ + crate::text::decimal(number);
        match self {
            ScreenError::Node(error) => machine + " node: "@ + error.text(),
            ScreenError::X(error) => machine + " X: "@ + error.text(),
            ScreenError::Y(error) => machine + " Y: "@ + error.text(),
            ScreenError::Width(error) => error.text(machine + " width"@),
            ScreenError::Height(error) => error.text(machine + " height"@),
            ScreenError::Layout(error) => machine + ": "@ + error.text(),
        }
    }

    pub fn message(&self, number: u64) -> (message: String)
        ensures
            message@ == self.text(number as nat),
    {
        let mut message = "Machine ".to_owned();
        push_decimal(&mut message, number);
        match self {
            ScreenError::Node(error) => {
                message.append(" node: ");
                message.append(error.message().as_str());
            },
            ScreenError::X(error) => {
                message.append(" X: ");
                message.append(error.message());
            },
            ScreenError::Y(error) => {
                message.append(" Y: ");
                message.append(error.message());
            },
            ScreenError::Width(error) => {
                message.append(" width");
                error.complete(&mut message);
            },
            ScreenError::Height(error) => {
                message.append(" height");
                error.complete(&mut message);
            },
            ScreenError::Layout(error) => {
                message.append(": ");
                message.append(error.message().as_str());
            },
        }
        message
    }
}

impl ScreenEditor {
    pub fn from_local_node(node: &NodeId) -> (screen: ScreenEditor)
        ensures
            screen@ == ScreenEditorView::unknown(node@, 0, 0),
    {
        ScreenEditor::from_node(node.as_str().to_owned(), 0, 0)
    }

    pub fn from_node(node: String, x: i32, y: i32) -> (screen: ScreenEditor)
        ensures
            screen@ == ScreenEditorView::unknown(node@, x as int, y as int),
    {
        ScreenEditor {
            node,
            x: signed_text(x),
            y: signed_text(y),
            width: decimal_text(DEFAULT_WIDTH as u64),
            height: decimal_text(DEFAULT_HEIGHT as u64),
            layout: default_layout(),
        }
    }

    pub fn from_placement(placement: &ScreenPlacement) -> (screen: ScreenEditor)
        ensures
            screen@ == ScreenEditorView::of_placement(placement@),
    {
        ScreenEditor {
            node: placement.node.as_str().to_owned(),
            x: signed_text(placement.bounds.origin.x),
            y: signed_text(placement.bounds.origin.y),
            width: decimal_text(placement.bounds.size.width.get() as u64),
            height: decimal_text(placement.bounds.size.height.get() as u64),
            layout: placement.layout.clone(),
        }
    }

    /// What the fields say.
    pub fn build(&self) -> (result: Result<ScreenPlacement, ScreenError>)
        ensures
            match result {
                Ok(placement) => self@.places(placement@),
                Err(error) => error.applies_to(self@),
            },
    {
        let node = match NodeId::new(trim(self.node.as_str())) {
            Ok(node) => node,
            Err(error) => {
                return Err(ScreenError::Node(error));
            },
        };
        let x: i32 = match parse_i32(trim(self.x.as_str())) {
            Ok(x) => x,
            Err(error) => {
                return Err(ScreenError::X(error));
            },
        };
        let y: i32 = match parse_i32(trim(self.y.as_str())) {
            Ok(y) => y,
            Err(error) => {
                return Err(ScreenError::Y(error));
            },
        };
        let width = match parse_nonzero(self.width.as_str()) {
            Ok(width) => width,
            Err(error) => {
                return Err(ScreenError::Width(error));
            },
        };
        let height = match parse_nonzero(self.height.as_str()) {
            Ok(height) => height,
            Err(error) => {
                return Err(ScreenError::Height(error));
            },
        };
        let size = Size::new(width, height);
        let layout = fitting_layout(&self.layout, size);
        let ghost known = layout@;
        match ScreenPlacement::with_layout(node, Point { x, y }, layout) {
            Ok(placement) => {
                Ok(placement)
            },
            Err(error) => {
                assert(known == layout_for(self@.layout, size));
                assert(self@.geometry()->0.width == size.width@);
                Err(ScreenError::Layout(error))
            },
        }
    }

    /// Where the fields place the machine, if they do.
    pub fn geometry(&self) -> (geometry: Option<ScreenGeometry>)
        ensures
            geometry == self@.geometry(),
            geometry matches Some(geometry) ==> geometry.has_area(),
    {
        let width: u32 = match parse_nonzero(self.width.as_str()) {
            Ok(width) => width.get(),
            Err(_) => {
                return None;
            },
        };
        let height: u32 = match parse_nonzero(self.height.as_str()) {
            Ok(height) => height.get(),
            Err(_) => {
                return None;
            },
        };
        let x: i32 = match parse_i32(trim(self.x.as_str())) {
            Ok(x) => x,
            Err(_) => {
                return None;
            },
        };
        let y: i32 = match parse_i32(trim(self.y.as_str())) {
            Ok(y) => y,
            Err(_) => {
                return None;
            },
        };
        Some(ScreenGeometry { x, y, width, height })
    }

    /// Whether the fields are those of a node.
    pub fn is_of(&self, node: &NodeId) -> (result: bool)
        ensures
            result == self@.names(node@),
    {
        crate::text::same_text(trim(self.node.as_str()), node.as_str())
    }
}

/// The fields of a placed machine say where it is placed.
pub proof fn law_placements_are_shown_as_they_are(
    placement: crate::domain::arrangement::PlacementView,
)
    requires
        placement.bounds.size.width@ != 0,
        placement.bounds.size.height@ != 0,
    ensures
        ScreenEditorView::of_placement(placement).geometry() == Some(
            ScreenGeometry {
                x: placement.bounds.origin.x,
                y: placement.bounds.origin.y,
                width: placement.bounds.size.width@,
                height: placement.bounds.size.height@,
            },
        ),
{
    crate::text::law_decimal_i32_round_trips(placement.bounds.origin.x);
    crate::text::law_decimal_i32_round_trips(placement.bounds.origin.y);
    crate::text::law_decimal_u32_round_trips(placement.bounds.size.width@);
    crate::text::law_decimal_u32_round_trips(placement.bounds.size.height@);
}

/// A machine that is moved lies where it was moved to, with the size that it
/// had.
pub proof fn law_moved_machines_lie_there(screen: ScreenEditorView, x: i32, y: i32)
    ensures
        screen.geometry() matches Some(geometry) ==> screen.at(x, y).geometry() == Some(
            ScreenGeometry { x, y, ..geometry },
        ),
{
    crate::text::law_decimal_i32_round_trips(x);
    crate::text::law_decimal_i32_round_trips(y);
}

} // verus!
