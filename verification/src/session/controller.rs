//! The controller: routes captured input to the node that has focus.

use vstd::prelude::*;
use vstd::string::*;

use crate::domain::arrangement::{ScreenPlacement, Topology};
use crate::domain::geometry::{Point, Size};
use crate::domain::identity::NodeId;
use crate::domain::input::{InputEvent, InputKind};
use crate::domain::topology::Edge;
use crate::protocol::message::{InputBatch, Session, MAX_INPUT_EVENTS_PER_BATCH};
use crate::saturating::saturating_add_i64;
use crate::session::coalesce::EventBuffer;
use crate::session::delivery::Deliveries;
use crate::session::roster::enter;
use crate::text::push_decimal;

verus! {

pub const MICROPIXELS_PER_PIXEL: i64 = 1_000_000;

pub const MAX_PENDING_BATCHES_PER_PEER: usize = 64;

#[derive(Debug)]
pub struct ControllerSession {
    topology: Topology,
    local_node: NodeId,
    focus: NodeId,
    focus_epoch: u64,
    focus_x_micropixels: i64,
    focus_y_micropixels: i64,
    buffer: EventBuffer,
    deliveries: Deliveries,
}

pub ghost struct ControllerView {
    /// The desktops that focus moves between.
    pub screens: Seq<crate::domain::arrangement::PlacementView>,
    pub local_node: Seq<char>,
    /// The node that input goes to.
    pub focus: Seq<char>,
    pub epoch: u64,
    /// Where the pointer is on the focused desktop, in micropixels.
    pub x: i64,
    pub y: i64,
    /// The input that waits to be sent.
    pub events: Seq<InputEvent>,
    pub deliveries: Map<Seq<char>, crate::session::delivery::DeliveryView>,
}

/// A remote node of the arrangement.
pub open spec fn is_peer(
    screens: Seq<crate::domain::arrangement::PlacementView>,
    local_node: Seq<char>,
    node: Seq<char>,
) -> bool {
    node != local_node && crate::domain::arrangement::has_node(screens, node)
}

/// The remote nodes of the arrangement.
pub open spec fn peers(
    screens: Seq<crate::domain::arrangement::PlacementView>,
    local_node: Seq<char>,
) -> Set<Seq<char>> {
    Set::new(|node: Seq<char>| is_peer(screens, local_node, node))
}

impl ControllerView {
    /// What holds in every state of a controller.
    pub open spec fn is_valid(self) -> bool {
        &&& crate::domain::arrangement::is_arrangement(self.screens)
        &&& crate::domain::arrangement::has_node(self.screens, self.local_node)
        &&& crate::domain::arrangement::has_node(self.screens, self.focus)
        &&& self.focus == self.local_node ==> self.events.len() == 0
        &&& self.events.len() <= MAX_INPUT_EVENTS_PER_BATCH
        &&& self.deliveries.dom() == peers(self.screens, self.local_node)
        &&& forall|node: Seq<char>| #[trigger]
            self.deliveries.dom().contains(node) ==> 0 <= self.deliveries[node].pending()
                <= MAX_PENDING_BATCHES_PER_PEER
        &&& 0 <= self.x < self.focused().bounds.size.width@ * MICROPIXELS_PER_PIXEL
        &&& 0 <= self.y < self.focused().bounds.size.height@ * MICROPIXELS_PER_PIXEL
    }

    /// The desktop that has focus.
    pub open spec fn focused(self) -> crate::domain::arrangement::PlacementView {
        crate::domain::arrangement::placement_of(self.screens, self.focus)->Some_0
    }

    /// The pixel that the pointer is on.
    pub open spec fn position(self) -> Point {
        Point { x: pixel_of(self.x), y: pixel_of(self.y) }
    }
}

/// The pixel that holds a coordinate in micropixels.
pub open spec fn pixel_of(micropixels: i64) -> i32 {
    if micropixels as int / MICROPIXELS_PER_PIXEL as int > i32::MAX {
        i32::MAX
    } else {
        (micropixels as int / MICROPIXELS_PER_PIXEL as int) as i32
    }
}

pub ghost enum ActionView {
    Send { peer: Seq<char>, message: crate::protocol::message::SessionView },
    ReleaseCapture,
}

#[allow(inconsistent_fields)]
pub ghost enum ErrorView {
    LocalNodeMissing(Seq<char>),
    UnknownPeer(Seq<char>),
    CaptureAlreadyActive(Seq<char>),
    NoAdjacentScreen { edge: Edge, offset: u32 },
    InputWhileLocal,
    Backpressure { peer: Seq<char>, maximum: usize },
    SequenceExhausted(Seq<char>),
    FocusEpochExhausted,
    AcknowledgementBeyondSent { peer: Seq<char>, acknowledged: u64, last_sent: u64 },
    PointerCoordinateOverflow,
}

/// The outcome of a step: the next state and what is done or refused.
pub ghost struct ControllerStep {
    pub state: ControllerView,
    pub outcome: Result<Seq<ActionView>, ErrorView>,
}

pub open spec fn done(state: ControllerView, actions: Seq<ActionView>) -> ControllerStep {
    ControllerStep { state, outcome: Ok(actions) }
}

pub open spec fn refused(state: ControllerView, error: ErrorView) -> ControllerStep {
    ControllerStep { state, outcome: Err(error) }
}

/// A step followed by another that takes place only if the first succeeds; the
/// actions of both are taken in order.
pub open spec fn followed_by(
    first: ControllerStep,
    second: spec_fn(ControllerView) -> ControllerStep,
) -> ControllerStep {
    match first.outcome {
        Err(error) => first,
        Ok(actions) => {
            let next = second(first.state);
            match next.outcome {
                Err(error) => next,
                Ok(more) => done(next.state, actions + more),
            }
        },
    }
}

/// Sends the buffered input as the next batch for the focused peer.
pub open spec fn flush_step(state: ControllerView) -> ControllerStep {
    if state.events.len() == 0 {
        done(state, seq![])
    } else if state.focus == state.local_node {
        refused(ControllerView { events: seq![], ..state }, ErrorView::InputWhileLocal)
    } else if !state.deliveries.dom().contains(state.focus) {
        refused(state, ErrorView::UnknownPeer(state.focus))
    } else {
        let delivery = state.deliveries[state.focus];
        if delivery.pending() >= MAX_PENDING_BATCHES_PER_PEER {
            refused(
                state,
                ErrorView::Backpressure {
                    peer: state.focus,
                    maximum: MAX_PENDING_BATCHES_PER_PEER,
                },
            )
        } else if delivery.last_sent == u64::MAX {
            refused(state, ErrorView::SequenceExhausted(state.focus))
        } else {
            let sequence = (delivery.last_sent + 1) as u64;
            done(
                ControllerView {
                    events: seq![],
                    deliveries: state.deliveries.insert(
                        state.focus,
                        crate::session::delivery::DeliveryView { last_sent: sequence, ..delivery },
                    ),
                    ..state
                },
                seq![
                    ActionView::Send {
                        peer: state.focus,
                        message: crate::protocol::message::SessionView::Input(
                            crate::protocol::message::BatchView {
                                focus_epoch: state.epoch,
                                sequence,
                                events: state.events,
                            },
                        ),
                    },
                ],
            )
        }
    }
}

/// The messages that tell `recipients` where focus is.
pub open spec fn focus_messages(state: ControllerView, recipients: Seq<Seq<char>>) -> Seq<
    ActionView,
> {
    recipients.map_values(
        |peer: Seq<char>|
            ActionView::Send {
                peer,
                message: crate::protocol::message::SessionView::FocusChanged {
                    focus_epoch: state.epoch,
                    target: state.focus,
                    entry_position: state.position(),
                },
            },
    )
}

/// Starts a new focus epoch and tells the recipients.
pub open spec fn epoch_step(state: ControllerView, recipients: Set<Seq<char>>) -> ControllerStep {
    if state.epoch == u64::MAX {
        refused(state, ErrorView::FocusEpochExhausted)
    } else {
        let next = ControllerView { epoch: (state.epoch + 1) as u64, ..state };
        let released = if state.focus == state.local_node {
            seq![ActionView::ReleaseCapture]
        } else {
            seq![]
        };
        done(
            next,
            released + focus_messages(next, crate::session::roster::sorted_listing(recipients)),
        )
    }
}

/// The nearest pixel coordinate on a desktop of `length` pixels.
pub open spec fn clamp_pixel(value: int, length: int) -> int {
    let maximum = if length - 1 > i32::MAX {
        i32::MAX as int
    } else {
        length - 1
    };
    if value < 0 {
        0
    } else if value > maximum {
        maximum
    } else {
        value
    }
}

/// The state with focus on `target`, at the pixel nearest to `(x, y)`.
pub open spec fn focused_on(
    state: ControllerView,
    target: crate::domain::arrangement::PlacementView,
    x: int,
    y: int,
) -> ControllerView {
    ControllerView {
        focus: target.node,
        x: (clamp_pixel(x, target.bounds.size.width@ as int) * MICROPIXELS_PER_PIXEL) as i64,
        y: (clamp_pixel(y, target.bounds.size.height@ as int) * MICROPIXELS_PER_PIXEL) as i64,
        ..state
    }
}

/// Moves focus to `target`, after what is buffered has been sent.
pub open spec fn focus_step(
    state: ControllerView,
    target: Seq<char>,
    x: int,
    y: int,
) -> ControllerStep {
    followed_by(
        flush_step(state),
        |sent: ControllerView|
            match crate::domain::arrangement::placement_of(sent.screens, target) {
                None => refused(sent, ErrorView::UnknownPeer(target)),
                Some(screen) => epoch_step(
                    focused_on(sent, screen, x, y),
                    peers(sent.screens, sent.local_node),
                ),
            },
    )
}

/// Takes the pointer over an edge of the local desktop.
pub open spec fn activation_step(state: ControllerView, edge: Edge, offset: u32) -> ControllerStep {
    if state.focus != state.local_node {
        refused(state, ErrorView::CaptureAlreadyActive(state.focus))
    } else {
        match crate::domain::arrangement::crossing(
            state.screens,
            state.local_node,
            edge,
            offset as int,
        ) {
            None => refused(state, ErrorView::NoAdjacentScreen { edge, offset }),
            Some((target, (x, y))) => focus_step(state, target.node, x, y),
        }
    }
}

/// `index` is where the first desktop stands that covers the pixel `(x, y)`.
pub open spec fn is_first_covering(
    screens: Seq<crate::domain::arrangement::PlacementView>,
    x: int,
    y: int,
    index: int,
) -> bool {
    &&& 0 <= index < screens.len()
    &&& screens[index].bounds.covers(x, y)
    &&& forall|i: int| 0 <= i < index ==> !(#[trigger] screens[i]).bounds.covers(x, y)
}

/// The desktop that covers the pixel `(x, y)`.
pub open spec fn covering(
    screens: Seq<crate::domain::arrangement::PlacementView>,
    x: int,
    y: int,
) -> Option<crate::domain::arrangement::PlacementView> {
    if exists|index: int| is_first_covering(screens, x, y, index) {
        Some(screens[choose|index: int| is_first_covering(screens, x, y, index)])
    } else {
        None
    }
}

/// The pixel, in the coordinates of the arrangement, that the pointer moves to.
pub open spec fn destination_pixel(state: ControllerView, dx: i64, dy: i64) -> (int, int) {
    let origin = state.focused().bounds.origin;
    (
        crate::saturating::clamp_i64(origin.x * MICROPIXELS_PER_PIXEL + state.x + dx) as int
            / MICROPIXELS_PER_PIXEL as int,
        crate::saturating::clamp_i64(origin.y * MICROPIXELS_PER_PIXEL + state.y + dy) as int
            / MICROPIXELS_PER_PIXEL as int,
    )
}

/// Where relative motion takes the pointer: a desktop, and the pixel on it.
/// `None` where no desktop, or none that touches the focused one, is there.
pub open spec fn pointer_destination(state: ControllerView, dx: i64, dy: i64) -> Result<
    Option<(crate::domain::arrangement::PlacementView, (int, int))>,
    ErrorView,
> {
    let (x, y) = destination_pixel(state, dx, dy);
    match covering(state.screens, x, y) {
        None => Ok(None),
        Some(screen) => if screen.node != state.focus && !state.focused().bounds.touches(
            screen.bounds,
        ) {
            Ok(None)
        } else {
            let local = (x - screen.bounds.x0(), y - screen.bounds.y0());
            if local.0 > i32::MAX || local.1 > i32::MAX {
                Err(ErrorView::PointerCoordinateOverflow)
            } else {
                Ok(Some((screen, local)))
            }
        },
    }
}

/// A coordinate in micropixels moved onto a desktop of `length` pixels.
pub open spec fn clamp_micropixels(value: int, length: int) -> i64 {
    if value < 0 {
        0
    } else if value > length * MICROPIXELS_PER_PIXEL - 1 {
        (length * MICROPIXELS_PER_PIXEL - 1) as i64
    } else {
        value as i64
    }
}

/// The state with the pointer at `(x, y)` micropixels, or the nearest place on
/// the focused desktop.
pub open spec fn pointed_at(state: ControllerView, x: int, y: int, size: Size) -> ControllerView {
    ControllerView {
        x: clamp_micropixels(x, size.width@ as int),
        y: clamp_micropixels(y, size.height@ as int),
        ..state
    }
}

/// The state once the pointer has followed an event on the focused desktop.
pub open spec fn observed(state: ControllerView, event: InputEvent) -> ControllerView {
    let size = state.focused().bounds.size;
    match event.kind {
        InputKind::PointerRelative { dx_micropixels, dy_micropixels } => pointed_at(
            state,
            crate::saturating::clamp_i64(state.x + dx_micropixels) as int,
            crate::saturating::clamp_i64(state.y + dy_micropixels) as int,
            size,
        ),
        InputKind::PointerAbsolute(position) => pointed_at(
            state,
            position.x * MICROPIXELS_PER_PIXEL,
            position.y * MICROPIXELS_PER_PIXEL,
            size,
        ),
        _ => state,
    }
}

/// Buffers an event for the focused peer, and sends the buffer where the event
/// does not fit any more or fills it.
pub open spec fn buffering_step(state: ControllerView, event: InputEvent) -> ControllerStep {
    let room = if state.events.len() >= MAX_INPUT_EVENTS_PER_BATCH
        && !crate::session::coalesce::can_take_up(state.events, event) {
        flush_step(state)
    } else {
        done(state, seq![])
    };
    followed_by(
        room,
        |ready: ControllerView|
            {
                let moved = observed(ready, event);
                let next = ControllerView {
                    events: crate::session::coalesce::buffered_with(moved.events, event),
                    ..moved
                };
                if next.events.len() >= MAX_INPUT_EVENTS_PER_BATCH {
                    flush_step(next)
                } else {
                    done(next, seq![])
                }
            },
    )
}

/// Where relative motion leads to another desktop, that desktop and the pixel on
/// it.
pub open spec fn crossing_of(state: ControllerView, event: InputEvent) -> Result<
    Option<(crate::domain::arrangement::PlacementView, (int, int))>,
    ErrorView,
> {
    match event.kind {
        InputKind::PointerRelative { dx_micropixels, dy_micropixels } => match pointer_destination(
            state,
            dx_micropixels,
            dy_micropixels,
        ) {
            Err(error) => Err(error),
            Ok(Some((screen, local))) => if screen.node != state.focus {
                Ok(Some((screen, local)))
            } else {
                Ok(None)
            },
            Ok(None) => Ok(None),
        },
        _ => Ok(None),
    }
}

/// Takes a captured event: motion onto another desktop moves focus there, all
/// other input is buffered for the focused peer.
pub open spec fn input_step(state: ControllerView, event: InputEvent) -> ControllerStep {
    if state.focus == state.local_node {
        refused(state, ErrorView::InputWhileLocal)
    } else {
        match crossing_of(state, event) {
            Err(error) => refused(state, error),
            Ok(Some((screen, (x, y)))) => followed_by(
                flush_step(state),
                |sent: ControllerView| focus_step(sent, screen.node, x, y),
            ),
            Ok(None) => buffering_step(state, event),
        }
    }
}

/// The state in a new arrangement: focus stays where it is if its node is still
/// there, and returns to the middle of the local desktop otherwise.
pub open spec fn rearranged(
    state: ControllerView,
    screens: Seq<crate::domain::arrangement::PlacementView>,
) -> ControllerView {
    let placed = ControllerView {
        screens,
        deliveries: crate::session::delivery::carried_deliveries(
            state.deliveries,
            peers(screens, state.local_node),
        ),
        ..state
    };
    match crate::domain::arrangement::placement_of(screens, state.focus) {
        Some(screen) => pointed_at(placed, state.x as int, state.y as int, screen.bounds.size),
        None => centered(placed),
    }
}

/// The state with focus in the middle of the local desktop.
pub open spec fn centered(state: ControllerView) -> ControllerView {
    let local = crate::domain::arrangement::placement_of(state.screens, state.local_node)->Some_0;
    ControllerView {
        focus: state.local_node,
        x: ((local.bounds.size.width@ / 2) * MICROPIXELS_PER_PIXEL) as i64,
        y: ((local.bounds.size.height@ / 2) * MICROPIXELS_PER_PIXEL) as i64,
        ..state
    }
}

/// Takes a new arrangement, after what is buffered has been sent, and tells the
/// peers of the old and of the new one.
pub open spec fn topology_step(
    state: ControllerView,
    screens: Seq<crate::domain::arrangement::PlacementView>,
) -> ControllerStep {
    if !crate::domain::arrangement::has_node(screens, state.local_node) {
        refused(state, ErrorView::LocalNodeMissing(state.local_node))
    } else {
        followed_by(
            flush_step(state),
            |sent: ControllerView|
                epoch_step(
                    rearranged(sent, screens),
                    peers(sent.screens, sent.local_node).union(peers(screens, sent.local_node)),
                ),
        )
    }
}

/// Gives focus back to the local desktop and forgets input that was not sent.
pub open spec fn return_step(state: ControllerView) -> ControllerStep {
    if state.focus == state.local_node {
        done(state, seq![])
    } else {
        epoch_step(
            centered(ControllerView { events: seq![], ..state }),
            peers(state.screens, state.local_node),
        )
    }
}

pub open spec fn action_views(actions: Seq<ControllerAction>) -> Seq<ActionView> {
    actions.map_values(|action: ControllerAction| action@)
}

/// What came of a step, in the terms of the model.
pub open spec fn outcome_of(result: Result<Vec<ControllerAction>, ControllerError>) -> Result<
    Seq<ActionView>,
    ErrorView,
> {
    match result {
        Ok(actions) => Ok(action_views(actions@)),
        Err(error) => Err(error@),
    }
}

#[derive(Debug, PartialEq, Eq)]
pub enum ControllerAction {
    Send { peer: NodeId, message: Session },
    ReleaseCapture,
}

impl View for ControllerAction {
    type V = ActionView;

    open spec fn view(&self) -> ActionView {
        match self {
            ControllerAction::Send { peer, message } => ActionView::Send {
                peer: peer@,
                message: message@,
            },
            ControllerAction::ReleaseCapture => ActionView::ReleaseCapture,
        }
    }
}

/// Why a controller refuses input, an activation or an acknowledgement.
#[allow(inconsistent_fields)]
#[derive(Debug, PartialEq, Eq)]
pub enum ControllerError {
    LocalNodeMissing(NodeId),
    UnknownPeer(NodeId),
    CaptureAlreadyActive(NodeId),
    NoAdjacentScreen { edge: Edge, offset: u32 },
    InputWhileLocal,
    Backpressure { peer: NodeId, maximum: usize },
    SequenceExhausted(NodeId),
    FocusEpochExhausted,
    AcknowledgementBeyondSent { peer: NodeId, acknowledged: u64, last_sent: u64 },
    PointerCoordinateOverflow,
}

impl View for ControllerError {
    type V = ErrorView;

    open spec fn view(&self) -> ErrorView {
        match self {
            ControllerError::LocalNodeMissing(node) => ErrorView::LocalNodeMissing(node@),
            ControllerError::UnknownPeer(node) => ErrorView::UnknownPeer(node@),
            ControllerError::CaptureAlreadyActive(node) => ErrorView::CaptureAlreadyActive(node@),
            ControllerError::NoAdjacentScreen { edge, offset } => ErrorView::NoAdjacentScreen {
                edge: *edge,
                offset: *offset,
            },
            ControllerError::InputWhileLocal => ErrorView::InputWhileLocal,
            ControllerError::Backpressure { peer, maximum } => ErrorView::Backpressure {
                peer: peer@,
                maximum: *maximum,
            },
            ControllerError::SequenceExhausted(node) => ErrorView::SequenceExhausted(node@),
            ControllerError::FocusEpochExhausted => ErrorView::FocusEpochExhausted,
            ControllerError::AcknowledgementBeyondSent { peer, acknowledged, last_sent } => {
                ErrorView::AcknowledgementBeyondSent {
                    peer: peer@,
                    acknowledged: *acknowledged,
                    last_sent: *last_sent,
                }
            },
            ControllerError::PointerCoordinateOverflow => ErrorView::PointerCoordinateOverflow,
        }
    }
}

impl View for ControllerSession {
    type V = ControllerView;

    closed spec fn view(&self) -> ControllerView {
        ControllerView {
            screens: self.topology@,
            local_node: self.local_node@,
            focus: self.focus@,
            epoch: self.focus_epoch,
            x: self.focus_x_micropixels,
            y: self.focus_y_micropixels,
            events: self.buffer@,
            deliveries: self.deliveries@,
        }
    }
}

/// The peers among the first `count` desktops.
spec fn peers_among(
    screens: Seq<crate::domain::arrangement::PlacementView>,
    local_node: Seq<char>,
    count: int,
) -> Set<Seq<char>> {
    Set::new(
        |node: Seq<char>|
            node != local_node && exists|i: int|
                0 <= i < count && (#[trigger] screens[i]).node == node,
    )
}

/// Enters the peers of an arrangement into a sorted list.
fn enter_peers(
    topology: &Topology,
    local_node: &NodeId,
    nodes: &mut Vec<NodeId>,
    Ghost(set): Ghost<Set<Seq<char>>>,
)
    requires
        crate::session::roster::is_sorted_listing(
            crate::session::roster::node_views(old(nodes)@),
            set,
        ),
    ensures
        crate::session::roster::is_sorted_listing(
            crate::session::roster::node_views(final(nodes)@),
            set.union(peers(topology@, local_node@)),
        ),
{
    let screens = topology.screens();
    let ghost views = topology@;
    let mut index: usize = 0;
    let ghost mut current = set;
    assert(current =~= set.union(peers_among(views, local_node@, 0)));
    while index < screens.len()
        invariant
            index <= screens@.len(),
            views == crate::domain::arrangement::placement_views(screens@),
            current == set.union(peers_among(views, local_node@, index as int)),
            crate::session::roster::is_sorted_listing(
                crate::session::roster::node_views(nodes@),
                current,
            ),
        decreases screens@.len() - index,
    {
        assert(views[index as int] == screens@[index as int]@);
        let ghost grown = peers_among(views, local_node@, index + 1);
        proof {
            let node = views[index as int].node;
            if node != local_node@ {
                assert(set.union(grown) =~= current.insert(node));
            } else {
                assert(set.union(grown) =~= current);
            }
        }
        if screens[index].node != *local_node {
            enter(nodes, &screens[index].node, Ghost(current));
        }
        proof {
            current = set.union(grown);
        }
        index += 1;
    }
    assert(peers_among(views, local_node@, index as int) =~= peers(topology@, local_node@));
}

fn screen_center(screen: &ScreenPlacement) -> (center: Point)
    ensures
        center.x == screen@.bounds.size.width@ / 2,
        center.y == screen@.bounds.size.height@ / 2,
        center.x < screen@.bounds.size.width@,
        center.y < screen@.bounds.size.height@,
{
    Point {
        x: (screen.bounds.size.width.get() / 2) as i32,
        y: (screen.bounds.size.height.get() / 2) as i32,
    }
}

fn clamp_coordinate(value: i32, length: u32) -> (clamped: i32)
    requires
        length > 0,
    ensures
        clamped == clamp_pixel(value as int, length as int),
        0 <= clamped < length,
{
    let maximum: i32 = if length - 1 > i32::MAX as u32 {
        i32::MAX
    } else {
        (length - 1) as i32
    };
    if value < 0 {
        0
    } else if value > maximum {
        maximum
    } else {
        value
    }
}

fn clamp_local_position(screen: &ScreenPlacement, position: Point) -> (clamped: Point)
    ensures
        clamped.x == clamp_pixel(position.x as int, screen@.bounds.size.width@ as int),
        clamped.y == clamp_pixel(position.y as int, screen@.bounds.size.height@ as int),
        0 <= clamped.x < screen@.bounds.size.width@,
        0 <= clamped.y < screen@.bounds.size.height@,
{
    Point {
        x: clamp_coordinate(position.x, screen.bounds.size.width.get()),
        y: clamp_coordinate(position.y, screen.bounds.size.height.get()),
    }
}

fn pixel(micropixels: i64) -> (pixel: i32)
    requires
        micropixels >= 0,
    ensures
        pixel == pixel_of(micropixels),
{
    let pixels: i64 = micropixels / MICROPIXELS_PER_PIXEL;
    if pixels > i32::MAX as i64 {
        i32::MAX
    } else {
        pixels as i32
    }
}

fn floor_pixels(micropixels: i64) -> (pixels: i64)
    ensures
        pixels == micropixels as int / MICROPIXELS_PER_PIXEL as int,
{
    match micropixels.checked_div_euclid(MICROPIXELS_PER_PIXEL) {
        Some(pixels) => pixels,
        None => 0,
    }
}

fn clamp_onto(value: i64, length: u32) -> (clamped: i64)
    requires
        length > 0,
    ensures
        clamped == clamp_micropixels(value as int, length as int),
        0 <= clamped < length * MICROPIXELS_PER_PIXEL,
{
    let maximum: i64 = length as i64 * MICROPIXELS_PER_PIXEL - 1;
    if value < 0 {
        0
    } else if value > maximum {
        maximum
    } else {
        value
    }
}

/// A controller at its start: the pointer in the middle of the local desktop,
/// nothing buffered, and nothing sent to any peer.
pub open spec fn initial(
    screens: Seq<crate::domain::arrangement::PlacementView>,
    local_node: Seq<char>,
) -> ControllerView {
    centered(
        ControllerView {
            screens,
            local_node,
            focus: local_node,
            epoch: 1,
            x: 0,
            y: 0,
            events: seq![],
            deliveries: crate::session::delivery::carried_deliveries(
                Map::empty(),
                peers(screens, local_node),
            ),
        },
    )
}

impl ControllerSession {
    /// What holds of every controller.
    pub closed spec fn is_valid(self) -> bool {
        self@.is_valid() && self.deliveries.is_valid()
    }

    /// A controller with focus in the middle of its own desktop.
    pub fn new(topology: Topology, local_node: NodeId) -> (result: Result<
        ControllerSession,
        ControllerError,
    >)
        ensures
            match result {
                Ok(session) => {
                    &&& crate::domain::arrangement::has_node(topology@, local_node@)
                    &&& session.is_valid()
                    &&& session@.is_valid()
                    &&& session@ == initial(topology@, local_node@)
                },
                Err(error) => !crate::domain::arrangement::has_node(topology@, local_node@)
                    && error@ == ErrorView::LocalNodeMissing(local_node@),
            },
    {
        proof {
            crate::domain::arrangement::lemma_placement_exists(topology@, local_node@);
        }
        let center = match topology.screen(&local_node) {
            Some(screen) => screen_center(screen),
            None => {
                return Err(ControllerError::LocalNodeMissing(local_node));
            },
        };
        let mut nodes: Vec<NodeId> = Vec::new();
        proof {
            assert(crate::session::roster::node_views(nodes@) =~= Seq::<Seq<char>>::empty());
        }
        enter_peers(&topology, &local_node, &mut nodes, Ghost(Set::empty()));
        let ghost remote = peers(topology@, local_node@);
        assert(Set::empty().union(remote) =~= remote);
        let deliveries = Deliveries::new().carried(&nodes, Ghost(remote));
        proof {
            use_type_invariant(&topology);
        }
        let session = ControllerSession {
            focus: local_node.clone(),
            focus_epoch: 1,
            focus_x_micropixels: center.x as i64 * MICROPIXELS_PER_PIXEL,
            focus_y_micropixels: center.y as i64 * MICROPIXELS_PER_PIXEL,
            buffer: EventBuffer::default(),
            deliveries,
            topology,
            local_node,
        };
        assert(session@.deliveries.dom() =~= remote);
        Ok(session)
    }

    /// The node that input goes to.
    pub fn focus(&self) -> (node: &NodeId)
        ensures
            node@ == self@.focus,
    {
        &self.focus
    }

    pub fn focus_epoch(&self) -> (epoch: u64)
        ensures
            epoch == self@.epoch,
    {
        self.focus_epoch
    }

    /// The pixel of the focused desktop that the pointer is on.
    pub fn focus_position(&self) -> (position: Point)
        requires
            self.is_valid(),
        ensures
            position == self@.position(),
    {
        Point { x: pixel(self.focus_x_micropixels), y: pixel(self.focus_y_micropixels) }
    }

    /// Takes the pointer over an edge of the local desktop.
    pub fn activate(&mut self, edge: Edge, offset: u32) -> (result: Result<
        Vec<ControllerAction>,
        ControllerError,
    >)
        requires
            old(self).is_valid(),
        ensures
            (ControllerStep { state: final(self)@, outcome: outcome_of(result) })
                == activation_step(old(self)@, edge, offset),
            final(self).is_valid(),
            final(self)@.is_valid(),
    {
        if self.focus != self.local_node {
            return Err(ControllerError::CaptureAlreadyActive(self.focus.clone()));
        }
        let (target, position) = match self.topology.transition(&self.local_node, edge, offset) {
            Some(transition) => (transition.target.clone(), transition.local_position),
            None => {
                return Err(ControllerError::NoAdjacentScreen { edge, offset });
            },
        };
        self.change_focus(target, position)
    }

    /// Sends the buffered input as the next batch for the focused peer.
    pub fn flush(&mut self) -> (result: Result<Vec<ControllerAction>, ControllerError>)
        requires
            old(self).is_valid(),
        ensures
            (ControllerStep { state: final(self)@, outcome: outcome_of(result) }) == flush_step(
                old(self)@,
            ),
            final(self).is_valid(),
            final(self)@.is_valid(),
    {
        if self.buffer.is_empty() {
            return Ok(no_actions());
        }
        if self.focus == self.local_node {
            let _ = self.buffer.take();
            return Err(ControllerError::InputWhileLocal);
        }
        let (last_sent, last_acknowledged) = match self.deliveries.get(&self.focus) {
            Some(delivery) => delivery,
            None => {
                return Err(ControllerError::UnknownPeer(self.focus.clone()));
            },
        };
        assert(self@.deliveries.dom().contains(self@.focus));
        if last_sent - last_acknowledged >= MAX_PENDING_BATCHES_PER_PEER as u64 {
            return Err(
                ControllerError::Backpressure {
                    peer: self.focus.clone(),
                    maximum: MAX_PENDING_BATCHES_PER_PEER,
                },
            );
        }
        let sequence: u64 = match last_sent.checked_add(1) {
            Some(sequence) => sequence,
            None => {
                return Err(ControllerError::SequenceExhausted(self.focus.clone()));
            },
        };
        let batch = InputBatch {
            focus_epoch: self.focus_epoch,
            sequence,
            events: self.buffer.take(),
        };
        self.deliveries.record(&self.focus, sequence, last_acknowledged);
        let actions = vec![
            ControllerAction::Send { peer: self.focus.clone(), message: Session::Input(batch) },
        ];
        proof {
            let expected = flush_step(old(self)@);
            assert(action_views(actions@) =~= expected.outcome->Ok_0);
            assert(self@.deliveries.dom() =~= old(self)@.deliveries.dom());
        }
        Ok(actions)
    }

    /// Takes an acknowledgement of a peer. Returns how many batches it settles.
    pub fn acknowledge(&mut self, peer: &NodeId, through_sequence: u64) -> (result: Result<
        usize,
        ControllerError,
    >)
        requires
            old(self).is_valid(),
        ensures
            match acknowledged(old(self)@, peer@, through_sequence) {
                Ok((state, settled)) => final(self)@ == state && (result matches Ok(count) && count
                    == settled),
                Err(error) => final(self)@ == old(self)@ && (result matches Err(refusal)
                    && refusal@ == error),
            },
            final(self).is_valid(),
            final(self)@.is_valid(),
    {
        let (last_sent, last_acknowledged) = match self.deliveries.get(peer) {
            Some(delivery) => delivery,
            None => {
                return Err(ControllerError::UnknownPeer(peer.clone()));
            },
        };
        if through_sequence > last_sent {
            return Err(
                ControllerError::AcknowledgementBeyondSent {
                    peer: peer.clone(),
                    acknowledged: through_sequence,
                    last_sent,
                },
            );
        }
        assert(self@.deliveries.dom().contains(peer@));
        if through_sequence <= last_acknowledged {
            return Ok(0);
        }
        self.deliveries.record(peer, last_sent, through_sequence);
        assert(self@.deliveries.dom() =~= old(self)@.deliveries.dom());
        Ok((through_sequence - last_acknowledged) as usize)
    }

    /// Takes a captured event.
    pub fn route_input(&mut self, event: InputEvent) -> (result: Result<
        Vec<ControllerAction>,
        ControllerError,
    >)
        requires
            old(self).is_valid(),
        ensures
            (ControllerStep { state: final(self)@, outcome: outcome_of(result) }) == input_step(
                old(self)@,
                event,
            ),
            final(self).is_valid(),
            final(self)@.is_valid(),
    {
        if self.focus == self.local_node {
            return Err(ControllerError::InputWhileLocal);
        }
        if let InputKind::PointerRelative { dx_micropixels, dy_micropixels } = event.kind {
            match self.pointer_destination(dx_micropixels, dy_micropixels) {
                Err(error) => {
                    return Err(error);
                },
                Ok(Some((target, position))) => {
                    if target != self.focus {
                        return self.cross_to(target, position);
                    }
                },
                Ok(None) => {},
            }
        }
        self.buffer_event(event)
    }

    fn cross_to(&mut self, target: NodeId, position: Point) -> (result: Result<
        Vec<ControllerAction>,
        ControllerError,
    >)
        requires
            old(self).is_valid(),
        ensures
            (ControllerStep { state: final(self)@, outcome: outcome_of(result) }) == followed_by(
                flush_step(old(self)@),
                |sent: ControllerView|
                    focus_step(sent, target@, position.x as int, position.y as int),
            ),
            final(self).is_valid(),
            final(self)@.is_valid(),
    {
        let mut actions = match self.flush() {
            Ok(actions) => actions,
            Err(error) => {
                return Err(error);
            },
        };
        let ghost first = action_views(actions@);
        match self.change_focus(target, position) {
            Ok(mut more) => {
                let ghost second = action_views(more@);
                actions.append(&mut more);
                assert(action_views(actions@) =~= first + second);
                Ok(actions)
            },
            Err(error) => Err(error),
        }
    }

    fn buffer_event(&mut self, event: InputEvent) -> (result: Result<
        Vec<ControllerAction>,
        ControllerError,
    >)
        requires
            old(self).is_valid(),
            old(self)@.focus != old(self)@.local_node,
        ensures
            (ControllerStep { state: final(self)@, outcome: outcome_of(result) })
                == buffering_step(old(self)@, event),
            final(self).is_valid(),
            final(self)@.is_valid(),
    {
        let mut actions = no_actions();
        if self.buffer.is_full() && !self.buffer.can_coalesce(event) {
            actions = match self.flush() {
                Ok(actions) => actions,
                Err(error) => {
                    return Err(error);
                },
            };
        }
        let ghost first = action_views(actions@);
        match self.observe_pointer(event) {
            Ok(()) => {},
            Err(error) => {
                return Err(error);
            },
        }
        if self.buffer.push(event) {
            match self.flush() {
                Ok(mut more) => {
                    let ghost second = action_views(more@);
                    actions.append(&mut more);
                    assert(action_views(actions@) =~= first + second);
                },
                Err(error) => {
                    return Err(error);
                },
            }
        } else {
            assert(first =~= first + Seq::<ActionView>::empty());
        }
        Ok(actions)
    }

    /// Takes a new arrangement of the desktops.
    pub fn reconcile_topology(&mut self, topology: Topology) -> (result: Result<
        Vec<ControllerAction>,
        ControllerError,
    >)
        requires
            old(self).is_valid(),
        ensures
            (ControllerStep { state: final(self)@, outcome: outcome_of(result) })
                == topology_step(old(self)@, topology@),
            final(self).is_valid(),
            final(self)@.is_valid(),
    {
        proof {
            use_type_invariant(&topology);
            crate::domain::arrangement::lemma_placement_exists(topology@, self.local_node@);
            crate::domain::arrangement::lemma_placement_exists(topology@, self.focus@);
        }
        let center = match topology.screen(&self.local_node) {
            Some(screen) => screen_center(screen),
            None => {
                return Err(ControllerError::LocalNodeMissing(self.local_node.clone()));
            },
        };
        let mut actions = match self.flush() {
            Ok(actions) => actions,
            Err(error) => {
                return Err(error);
            },
        };
        let ghost sent = self@;
        let ghost first = action_views(actions@);
        let ghost before = peers(sent.screens, sent.local_node);
        let ghost after = peers(topology@, sent.local_node);
        let mut next_peers: Vec<NodeId> = Vec::new();
        let mut recipients: Vec<NodeId> = Vec::new();
        proof {
            assert(crate::session::roster::node_views(recipients@) =~= Seq::<Seq<char>>::empty());
            assert(Set::empty().union(before) =~= before);
            assert(Set::empty().union(after) =~= after);
        }
        enter_peers(&self.topology, &self.local_node, &mut recipients, Ghost(Set::empty()));
        enter_peers(&topology, &self.local_node, &mut recipients, Ghost(before));
        enter_peers(&topology, &self.local_node, &mut next_peers, Ghost(Set::empty()));
        match topology.screen(&self.focus) {
            Some(screen) => {
                self.focus_x_micropixels = clamp_onto(
                    self.focus_x_micropixels,
                    screen.bounds.size.width.get(),
                );
                self.focus_y_micropixels = clamp_onto(
                    self.focus_y_micropixels,
                    screen.bounds.size.height.get(),
                );
            },
            None => {
                self.focus = self.local_node.clone();
                self.focus_x_micropixels = center.x as i64 * MICROPIXELS_PER_PIXEL;
                self.focus_y_micropixels = center.y as i64 * MICROPIXELS_PER_PIXEL;
            },
        }
        self.topology = topology;
        self.deliveries = self.deliveries.carried(&next_peers, Ghost(after));
        proof {
            assert(self@ == rearranged(sent, topology@));
            assert(self@.deliveries.dom() =~= after);
        }
        match self.advance_epoch_and_broadcast(&recipients, Ghost(before.union(after))) {
            Ok(mut more) => {
                let ghost second = action_views(more@);
                actions.append(&mut more);
                assert(action_views(actions@) =~= first + second);
                Ok(actions)
            },
            Err(error) => Err(error),
        }
    }

    /// Gives focus back to the local desktop. Input that was not sent is
    /// forgotten, so this works while the focused peer does not respond.
    pub fn return_to_local(&mut self) -> (result: Result<Vec<ControllerAction>, ControllerError>)
        requires
            old(self).is_valid(),
        ensures
            (ControllerStep { state: final(self)@, outcome: outcome_of(result) }) == return_step(
                old(self)@,
            ),
            final(self).is_valid(),
            final(self)@.is_valid(),
    {
        if self.focus == self.local_node {
            return Ok(no_actions());
        }
        proof {
            crate::domain::arrangement::lemma_placement_exists(self@.screens, self@.local_node);
        }
        let center = match self.topology.screen(&self.local_node) {
            Some(screen) => screen_center(screen),
            None => {
                return Err(ControllerError::LocalNodeMissing(self.local_node.clone()));
            },
        };
        let _ = self.buffer.take();
        self.focus = self.local_node.clone();
        self.focus_x_micropixels = center.x as i64 * MICROPIXELS_PER_PIXEL;
        self.focus_y_micropixels = center.y as i64 * MICROPIXELS_PER_PIXEL;
        let mut recipients: Vec<NodeId> = Vec::new();
        let ghost remote = peers(self@.screens, self@.local_node);
        proof {
            assert(crate::session::roster::node_views(recipients@) =~= Seq::<Seq<char>>::empty());
            assert(Set::empty().union(remote) =~= remote);
        }
        enter_peers(&self.topology, &self.local_node, &mut recipients, Ghost(Set::empty()));
        self.advance_epoch_and_broadcast(&recipients, Ghost(remote))
    }

    /// Starts the delivery to a peer afresh, for a new connection to it.
    pub fn reset_peer(&mut self, peer: &NodeId) -> (result: Result<(), ControllerError>)
        requires
            old(self).is_valid(),
        ensures
            match restarted(old(self)@, peer@) {
                Ok(state) => final(self)@ == state && result is Ok,
                Err(error) => final(self)@ == old(self)@ && (result matches Err(refusal)
                    && refusal@ == error),
            },
            final(self).is_valid(),
            final(self)@.is_valid(),
    {
        match self.deliveries.get(peer) {
            Some(_) => {
                self.deliveries.record(peer, 0, 0);
                assert(self@.deliveries.dom() =~= old(self)@.deliveries.dom());
                Ok(())
            },
            None => Err(ControllerError::UnknownPeer(peer.clone())),
        }
    }

    fn pointer_destination(&self, dx_micropixels: i64, dy_micropixels: i64) -> (result: Result<
        Option<(NodeId, Point)>,
        ControllerError,
    >)
        requires
            self.is_valid(),
        ensures
            match pointer_destination(self@, dx_micropixels, dy_micropixels) {
                Err(error) => result matches Err(refusal) && refusal@ == error,
                Ok(None) => result matches Ok(None),
                Ok(Some((screen, (x, y)))) => result matches Ok(Some((node, position))) && node@
                    == screen.node && position.x == x && position.y == y,
            },
    {
        proof {
            crate::domain::arrangement::lemma_placement_exists(self@.screens, self@.focus);
        }
        let current = match self.topology.screen(&self.focus) {
            Some(screen) => screen,
            None => {
                return Err(ControllerError::UnknownPeer(self.focus.clone()));
            },
        };
        let bounds = current.bounds;
        let global_x: i64 = bounds.origin.x as i64 * MICROPIXELS_PER_PIXEL
            + self.focus_x_micropixels;
        let global_y: i64 = bounds.origin.y as i64 * MICROPIXELS_PER_PIXEL
            + self.focus_y_micropixels;
        let x: i64 = floor_pixels(saturating_add_i64(global_x, dx_micropixels));
        let y: i64 = floor_pixels(saturating_add_i64(global_y, dy_micropixels));
        let ghost expected = pointer_destination(self@, dx_micropixels, dy_micropixels);
        assert(destination_pixel(self@, dx_micropixels, dy_micropixels) == (x as int, y as int));
        let screens = self.topology.screens();
        let mut index: usize = 0;
        while index < screens.len()
            invariant
                index <= screens@.len(),
                self@.screens == crate::domain::arrangement::placement_views(screens@),
                self@.focused() == current@,
                current@.node == self@.focus,
                bounds == current@.bounds,
                -10_000_000_000_000 <= x <= 10_000_000_000_000,
                -10_000_000_000_000 <= y <= 10_000_000_000_000,
                destination_pixel(self@, dx_micropixels, dy_micropixels) == (x as int, y as int),
                expected == pointer_destination(self@, dx_micropixels, dy_micropixels),
                forall|i: int|
                    0 <= i < index ==> !(#[trigger] self@.screens[i]).bounds.covers(
                        x as int,
                        y as int,
                    ),
            decreases screens@.len() - index,
        {
            let screen = &screens[index];
            assert(self@.screens[index as int] == screen@);
            if screen.bounds.contains_coordinates(x, y) {
                proof {
                    lemma_covering(self@.screens, x as int, y as int, index as int);
                }
                if screen.node != current.node && !bounds.shares_edge(screen.bounds) {
                    return Ok(None);
                }
                let local_x: i64 = x - screen.bounds.left();
                let local_y: i64 = y - screen.bounds.top();
                if local_x > i32::MAX as i64 || local_y > i32::MAX as i64 {
                    return Err(ControllerError::PointerCoordinateOverflow);
                }
                let position = Point { x: local_x as i32, y: local_y as i32 };
                return Ok(Some((screen.node.clone(), position)));
            }
            index += 1;
        }
        Ok(None)
    }

    fn observe_pointer(&mut self, event: InputEvent) -> (result: Result<(), ControllerError>)
        requires
            old(self).is_valid(),
        ensures
            result is Ok,
            final(self)@ == observed(old(self)@, event),
            final(self).is_valid(),
    {
        let (x, y) = match event.kind {
            InputKind::PointerRelative { dx_micropixels, dy_micropixels } => (
                saturating_add_i64(self.focus_x_micropixels, dx_micropixels),
                saturating_add_i64(self.focus_y_micropixels, dy_micropixels),
            ),
            InputKind::PointerAbsolute(position) => (
                position.x as i64 * MICROPIXELS_PER_PIXEL,
                position.y as i64 * MICROPIXELS_PER_PIXEL,
            ),
            InputKind::Key { .. } | InputKind::PointerButton { .. } | InputKind::Scroll(_) => {
                return Ok(());
            },
        };
        proof {
            crate::domain::arrangement::lemma_placement_exists(self@.screens, self@.focus);
        }
        let size = match self.topology.screen(&self.focus) {
            Some(screen) => screen.bounds.size,
            None => {
                return Err(ControllerError::UnknownPeer(self.focus.clone()));
            },
        };
        self.focus_x_micropixels = clamp_onto(x, size.width.get());
        self.focus_y_micropixels = clamp_onto(y, size.height.get());
        Ok(())
    }

    /// The number of batches that `peer` has not acknowledged.
    pub fn pending_batches(&self, peer: &NodeId) -> (count: usize)
        requires
            self.is_valid(),
        ensures
            count == pending_of(self@, peer@),
    {
        match self.deliveries.get(peer) {
            Some((last_sent, last_acknowledged)) => {
                assert(self@.deliveries.dom().contains(peer@));
                (last_sent - last_acknowledged) as usize
            },
            None => 0,
        }
    }

    fn change_focus(&mut self, target: NodeId, position: Point) -> (result: Result<
        Vec<ControllerAction>,
        ControllerError,
    >)
        requires
            old(self).is_valid(),
        ensures
            (ControllerStep { state: final(self)@, outcome: outcome_of(result) }) == focus_step(
                old(self)@,
                target@,
                position.x as int,
                position.y as int,
            ),
            final(self).is_valid(),
            final(self)@.is_valid(),
    {
        let mut actions = match self.flush() {
            Ok(actions) => actions,
            Err(error) => {
                return Err(error);
            },
        };
        let ghost sent = self@;
        let ghost first = action_views(actions@);
        proof {
            crate::domain::arrangement::lemma_placement_exists(sent.screens, target@);
        }
        let clamped = match self.topology.screen(&target) {
            Some(screen) => clamp_local_position(screen, position),
            None => {
                return Err(ControllerError::UnknownPeer(target));
            },
        };
        self.focus = target;
        self.focus_x_micropixels = clamped.x as i64 * MICROPIXELS_PER_PIXEL;
        self.focus_y_micropixels = clamped.y as i64 * MICROPIXELS_PER_PIXEL;
        let mut recipients: Vec<NodeId> = Vec::new();
        let ghost remote = peers(sent.screens, sent.local_node);
        proof {
            assert(crate::session::roster::node_views(recipients@) =~= Seq::<Seq<char>>::empty());
            assert(Set::empty().union(remote) =~= remote);
        }
        enter_peers(&self.topology, &self.local_node, &mut recipients, Ghost(Set::empty()));
        match self.advance_epoch_and_broadcast(&recipients, Ghost(remote)) {
            Ok(mut more) => {
                let ghost second = action_views(more@);
                actions.append(&mut more);
                assert(action_views(actions@) =~= first + second);
                Ok(actions)
            },
            Err(error) => Err(error),
        }
    }

    fn advance_epoch_and_broadcast(
        &mut self,
        recipients: &Vec<NodeId>,
        Ghost(set): Ghost<Set<Seq<char>>>,
    ) -> (result: Result<Vec<ControllerAction>, ControllerError>)
        requires
            old(self).is_valid(),
            crate::session::roster::is_sorted_listing(
                crate::session::roster::node_views(recipients@),
                set,
            ),
        ensures
            (ControllerStep { state: final(self)@, outcome: outcome_of(result) }) == epoch_step(
                old(self)@,
                set,
            ),
            final(self).is_valid(),
            final(self)@.is_valid(),
    {
        proof {
            crate::session::roster::law_sorted_listing_is_unique(
                crate::session::roster::node_views(recipients@),
                set,
            );
        }
        self.focus_epoch = match self.focus_epoch.checked_add(1) {
            Some(epoch) => epoch,
            None => {
                return Err(ControllerError::FocusEpochExhausted);
            },
        };
        let mut actions: Vec<ControllerAction> = Vec::new();
        if self.focus == self.local_node {
            actions.push(ControllerAction::ReleaseCapture);
        }
        let ghost released = action_views(actions@);
        let ghost listed = crate::session::roster::node_views(recipients@);
        let entry_position = self.focus_position();
        let mut index: usize = 0;
        assert(released =~= released + focus_messages(self@, listed.take(0)));
        while index < recipients.len()
            invariant
                index <= recipients.len(),
                self.is_valid(),
                listed == crate::session::roster::node_views(recipients@),
                entry_position == self@.position(),
                action_views(actions@) == released + focus_messages(
                    self@,
                    listed.take(index as int),
                ),
            decreases recipients.len() - index,
        {
            let ghost before = actions@;
            let message = Session::FocusChanged {
                focus_epoch: self.focus_epoch,
                target: self.focus.clone(),
                entry_position,
            };
            actions.push(ControllerAction::Send { peer: recipients[index].clone(), message });
            proof {
                let sent = actions@[actions@.len() - 1]@;
                assert(action_views(actions@) =~= action_views(before).push(sent));
                assert(listed.take(index + 1) =~= listed.take(index as int).push(
                    listed[index as int],
                ));
                assert(focus_messages(self@, listed.take(index + 1)) =~= focus_messages(
                    self@,
                    listed.take(index as int),
                ).push(sent));
                assert(released + focus_messages(self@, listed.take(index + 1)) =~= (released
                    + focus_messages(self@, listed.take(index as int))).push(sent));
            }
            index += 1;
        }
        proof {
            assert(listed.take(index as int) =~= listed);
            if self@.focus == self@.local_node {
                assert(released =~= seq![ActionView::ReleaseCapture]);
            } else {
                assert(released =~= Seq::<ActionView>::empty());
            }
        }
        Ok(actions)
    }
}

proof fn lemma_covering(
    screens: Seq<crate::domain::arrangement::PlacementView>,
    x: int,
    y: int,
    index: int,
)
    requires
        is_first_covering(screens, x, y, index),
    ensures
        covering(screens, x, y) == Some(screens[index]),
{
    let chosen = choose|i: int| is_first_covering(screens, x, y, i);
    assert(is_first_covering(screens, x, y, chosen));
    if chosen < index {
        assert(!screens[chosen].bounds.covers(x, y));
    } else if index < chosen {
        assert(!screens[index].bounds.covers(x, y));
    }
}

fn no_actions() -> (actions: Vec<ControllerAction>)
    ensures
        action_views(actions@) == Seq::<ActionView>::empty(),
{
    let actions: Vec<ControllerAction> = Vec::new();
    assert(action_views(actions@) =~= Seq::<ActionView>::empty());
    actions
}

/// The state once `peer` has acknowledged its input up to a sequence, and how
/// many batches that settles.
pub open spec fn acknowledged(
    state: ControllerView,
    peer: Seq<char>,
    through_sequence: u64,
) -> Result<(ControllerView, int), ErrorView> {
    if !state.deliveries.dom().contains(peer) {
        Err(ErrorView::UnknownPeer(peer))
    } else {
        let delivery = state.deliveries[peer];
        if through_sequence > delivery.last_sent {
            Err(
                ErrorView::AcknowledgementBeyondSent {
                    peer,
                    acknowledged: through_sequence,
                    last_sent: delivery.last_sent,
                },
            )
        } else if through_sequence <= delivery.last_acknowledged {
            Ok((state, 0))
        } else {
            Ok(
                (
                    ControllerView {
                        deliveries: state.deliveries.insert(
                            peer,
                            crate::session::delivery::DeliveryView {
                                last_acknowledged: through_sequence,
                                ..delivery
                            },
                        ),
                        ..state
                    },
                    through_sequence - delivery.last_acknowledged,
                ),
            )
        }
    }
}

/// The state once the delivery to `peer` starts afresh.
pub open spec fn restarted(state: ControllerView, peer: Seq<char>) -> Result<
    ControllerView,
    ErrorView,
> {
    if state.deliveries.dom().contains(peer) {
        Ok(
            ControllerView {
                deliveries: state.deliveries.insert(
                    peer,
                    crate::session::delivery::DeliveryView::fresh(),
                ),
                ..state
            },
        )
    } else {
        Err(ErrorView::UnknownPeer(peer))
    }
}

/// The number of batches that `peer` has not acknowledged: none for a node that
/// is no peer.
pub open spec fn pending_of(state: ControllerView, peer: Seq<char>) -> int {
    if state.deliveries.dom().contains(peer) {
        state.deliveries[peer].pending()
    } else {
        0
    }
}

/// Something that happens to a controller.
pub ghost enum ControllerEvent {
    Activation { edge: Edge, offset: u32 },
    Input(InputEvent),
    Flush,
    Rearrangement { screens: Seq<crate::domain::arrangement::PlacementView> },
    Return,
}

pub open spec fn step(state: ControllerView, event: ControllerEvent) -> ControllerStep {
    match event {
        ControllerEvent::Activation { edge, offset } => activation_step(state, edge, offset),
        ControllerEvent::Input(event) => input_step(state, event),
        ControllerEvent::Flush => flush_step(state),
        ControllerEvent::Rearrangement { screens } => topology_step(state, screens),
        ControllerEvent::Return => return_step(state),
    }
}

/// The batch of input in an action.
pub open spec fn batch_of(action: ActionView) -> Option<crate::protocol::message::BatchView> {
    match action {
        ActionView::Send {
            message: crate::protocol::message::SessionView::Input(batch),
            ..
        } => Some(batch),
        _ => None,
    }
}

/// The action announces this focus epoch.
pub open spec fn announces(action: ActionView, epoch: u64) -> bool {
    action matches ActionView::Send {
        message: crate::protocol::message::SessionView::FocusChanged { focus_epoch, .. },
        ..
    } && focus_epoch == epoch
}

/// Every action of an epoch step tells of the new epoch or releases the capture.
pub proof fn lemma_epoch_actions(state: ControllerView, recipients: Set<Seq<char>>, i: int)
    ensures
        epoch_step(state, recipients).outcome matches Ok(actions) ==> (0 <= i < actions.len()
            ==> batch_of(actions[i]) is None && (actions[i] is ReleaseCapture || announces(
            actions[i],
            (state.epoch + 1) as u64,
        )) && (state.focus == state.local_node ==> actions[0] is ReleaseCapture)),
{
    if let Ok(actions) = epoch_step(state, recipients).outcome {
        let next = ControllerView { epoch: (state.epoch + 1) as u64, ..state };
        let listed = crate::session::roster::sorted_listing(recipients);
        let messages = focus_messages(next, listed);
        if 0 <= i < actions.len() {
            let skipped = actions.len() - messages.len();
            if i >= skipped {
                assert(actions[i] == messages[i - skipped]);
            }
        }
    }
}

/// Input goes out in batches of 1 to 512 events of the current epoch, numbered
/// one after the other, and all that was buffered goes out.
pub proof fn law_batches_are_numbered_in_order(state: ControllerView)
    requires
        state.is_valid(),
        state.events.len() > 0,
        flush_step(state).outcome is Ok,
    ensures
        flush_step(state).outcome->Ok_0.len() == 1,
        batch_of(flush_step(state).outcome->Ok_0[0]) matches Some(batch) && {
            &&& batch.focus_epoch == state.epoch
            &&& batch.sequence == state.deliveries[state.focus].last_sent + 1
            &&& batch.events == state.events
            &&& 0 < batch.events.len() <= MAX_INPUT_EVENTS_PER_BATCH
        },
        flush_step(state).state.events.len() == 0,
        flush_step(state).state.deliveries[state.focus].last_sent
            == state.deliveries[state.focus].last_sent + 1,
{
}

/// An overloaded peer is reported, and the input that waits for it is kept.
pub proof fn law_backpressure_keeps_the_input(state: ControllerView)
    requires
        state.is_valid(),
        state.events.len() > 0,
        state.deliveries[state.focus].pending() == MAX_PENDING_BATCHES_PER_PEER,
    ensures
        flush_step(state) == refused(
            state,
            ErrorView::Backpressure { peer: state.focus, maximum: MAX_PENDING_BATCHES_PER_PEER },
        ),
{
    assert(state.deliveries.dom().contains(state.focus));
}

/// What a peer has not acknowledged never exceeds the limit, whatever happens.
pub proof fn law_controller_states_stay_valid(state: ControllerView, event: ControllerEvent)
    requires
        state.is_valid(),
        event matches ControllerEvent::Rearrangement { screens }
            ==> crate::domain::arrangement::is_arrangement(screens),
    ensures
        step(state, event).state.is_valid(),
{
    lemma_flush_keeps_validity(state);
    let sent = flush_step(state).state;
    match event {
        ControllerEvent::Activation { edge, offset } => {
            if let Some((target, (x, y))) = crate::domain::arrangement::crossing(
                state.screens,
                state.local_node,
                edge,
                offset as int,
            ) {
                lemma_focus_keeps_validity(state, target.node, x, y);
            }
        },
        ControllerEvent::Input(input) => {
            if state.focus != state.local_node {
                match crossing_of(state, input) {
                    Ok(Some((screen, (x, y)))) => {
                        lemma_focus_keeps_validity(sent, screen.node, x, y);
                    },
                    Ok(None) => {
                        lemma_buffering_keeps_validity(state, input);
                    },
                    Err(_) => {},
                }
            }
        },
        ControllerEvent::Flush => {},
        ControllerEvent::Rearrangement { screens } => {
            if crate::domain::arrangement::has_node(screens, state.local_node)
                && flush_step(state).outcome is Ok {
                lemma_rearranging_keeps_validity(sent, screens);
            }
        },
        ControllerEvent::Return => {
            crate::domain::arrangement::lemma_placement_exists(state.screens, state.local_node);
        },
    }
}

pub proof fn lemma_flush_keeps_validity(state: ControllerView)
    requires
        state.is_valid(),
    ensures
        flush_step(state).state.is_valid(),
        flush_step(state).state.screens == state.screens,
        flush_step(state).state.local_node == state.local_node,
        flush_step(state).state.focus == state.focus,
        flush_step(state).state.epoch == state.epoch,
        flush_step(state).outcome is Ok ==> flush_step(state).state.events.len() == 0,
{
    let next = flush_step(state).state;
    assert(next.deliveries.dom() =~= state.deliveries.dom());
}

proof fn lemma_focus_keeps_validity(state: ControllerView, target: Seq<char>, x: int, y: int)
    requires
        state.is_valid(),
    ensures
        focus_step(state, target, x, y).state.is_valid(),
{
    lemma_flush_keeps_validity(state);
    crate::domain::arrangement::lemma_placement_exists(state.screens, target);
}

proof fn lemma_observing_keeps_validity(state: ControllerView, event: InputEvent)
    requires
        state.is_valid(),
    ensures
        observed(state, event).is_valid(),
{
    crate::domain::arrangement::lemma_placement_exists(state.screens, state.focus);
}

proof fn lemma_buffering_keeps_validity(state: ControllerView, event: InputEvent)
    requires
        state.is_valid(),
        state.focus != state.local_node,
    ensures
        buffering_step(state, event).state.is_valid(),
{
    lemma_flush_keeps_validity(state);
    let room = if state.events.len() >= MAX_INPUT_EVENTS_PER_BATCH
        && !crate::session::coalesce::can_take_up(state.events, event) {
        flush_step(state)
    } else {
        done(state, seq![])
    };
    let ready = room.state;
    lemma_observing_keeps_validity(ready, event);
    let moved = observed(ready, event);
    let next = ControllerView {
        events: crate::session::coalesce::buffered_with(moved.events, event),
        ..moved
    };
    if room.outcome is Ok {
        assert(next.is_valid());
        lemma_flush_keeps_validity(next);
    }
}

proof fn lemma_rearranging_keeps_validity(
    state: ControllerView,
    screens: Seq<crate::domain::arrangement::PlacementView>,
)
    requires
        state.is_valid(),
        crate::domain::arrangement::is_arrangement(screens),
        crate::domain::arrangement::has_node(screens, state.local_node),
        state.events.len() == 0,
    ensures
        rearranged(state, screens).is_valid(),
{
    crate::domain::arrangement::lemma_placement_exists(screens, state.local_node);
    crate::domain::arrangement::lemma_placement_exists(screens, state.focus);
    let next = rearranged(state, screens);
    assert(next.deliveries.dom() =~= peers(screens, state.local_node));
}

/// Focus moves only together with a new epoch, so that whatever was captured
/// for the old focus can be told from what is captured for the new one.
pub proof fn law_focus_moves_with_a_new_epoch(state: ControllerView, event: ControllerEvent)
    requires
        state.is_valid(),
        step(state, event).outcome is Ok,
    ensures
        step(state, event).state.focus != state.focus ==> step(state, event).state.epoch
            == state.epoch + 1,
        step(state, event).state.epoch == state.epoch || step(state, event).state.epoch
            == state.epoch + 1,
{
}

/// When focus moves or the desktops are rearranged, input of the old epoch goes
/// out first: no batch of input follows the announcement of the new epoch.
pub proof fn law_old_input_goes_out_before_the_new_epoch(
    state: ControllerView,
    event: ControllerEvent,
    i: int,
    j: int,
)
    requires
        state.is_valid(),
        step(state, event).outcome matches Ok(actions) && 0 <= i < actions.len() && 0 <= j
            < actions.len() && announces(actions[i], (state.epoch + 1) as u64) && batch_of(
            actions[j],
        ) is Some,
    ensures
        j < i,
        batch_of(step(state, event).outcome->Ok_0[j])->Some_0.focus_epoch == state.epoch,
{
    let actions = step(state, event).outcome->Ok_0;
    lemma_flush_keeps_validity(state);
    let flushed = flush_step(state);
    let sent = flushed.state;
    match event {
        ControllerEvent::Activation { edge, offset } => {
            if let Some((target, (x, y))) = crate::domain::arrangement::crossing(
                state.screens,
                state.local_node,
                edge,
                offset as int,
            ) {
                if let Some(screen) = crate::domain::arrangement::placement_of(
                    state.screens,
                    target.node,
                ) {
                    lemma_actions_behind(
                        flushed,
                        focused_on(sent, screen, x, y),
                        peers(sent.screens, sent.local_node),
                        actions,
                        i,
                        j,
                    );
                }
            }
        },
        ControllerEvent::Input(input) => {
            if let Ok(Some((target, (x, y)))) = crossing_of(state, input) {
                if let Some(screen) = crate::domain::arrangement::placement_of(
                    state.screens,
                    target.node,
                ) {
                    let again = epoch_step(
                        focused_on(sent, screen, x, y),
                        peers(sent.screens, sent.local_node),
                    ).outcome->Ok_0;
                    assert(seq![] + again =~= again);
                    lemma_actions_behind(
                        flushed,
                        focused_on(sent, screen, x, y),
                        peers(sent.screens, sent.local_node),
                        actions,
                        i,
                        j,
                    );
                }
            } else {
                lemma_buffering_announces_nothing(state, input, i);
            }
        },
        ControllerEvent::Flush => {},
        ControllerEvent::Rearrangement { screens } => {
            lemma_actions_behind(
                flushed,
                rearranged(sent, screens),
                peers(sent.screens, sent.local_node).union(peers(screens, sent.local_node)),
                actions,
                i,
                j,
            );
        },
        ControllerEvent::Return => {
            lemma_epoch_actions(
                centered(ControllerView { events: seq![], ..state }),
                peers(state.screens, state.local_node),
                j,
            );
        },
    }
}

proof fn lemma_actions_behind(
    flushed: ControllerStep,
    moved: ControllerView,
    recipients: Set<Seq<char>>,
    actions: Seq<ActionView>,
    i: int,
    j: int,
)
    requires
        flushed.outcome is Ok,
        flushed.outcome->Ok_0.len() <= 1,
        flushed.outcome->Ok_0.len() == 1 ==> (batch_of(flushed.outcome->Ok_0[0]) matches Some(batch)
            && batch.focus_epoch == moved.epoch),
        epoch_step(moved, recipients).outcome is Ok,
        actions == flushed.outcome->Ok_0 + epoch_step(moved, recipients).outcome->Ok_0,
        0 <= i < actions.len(),
        0 <= j < actions.len(),
        announces(actions[i], (moved.epoch + 1) as u64),
        batch_of(actions[j]) is Some,
    ensures
        j < i,
        batch_of(actions[j])->Some_0.focus_epoch == moved.epoch,
{
    let count = flushed.outcome->Ok_0.len();
    lemma_epoch_actions(moved, recipients, j - count);
    if j >= count {
        assert(actions[j] == epoch_step(moved, recipients).outcome->Ok_0[j - count]);
    }
}

proof fn lemma_buffering_announces_nothing(state: ControllerView, event: InputEvent, i: int)
    requires
        state.is_valid(),
        buffering_step(state, event).outcome is Ok,
        0 <= i < buffering_step(state, event).outcome->Ok_0.len(),
    ensures
        batch_of(buffering_step(state, event).outcome->Ok_0[i]) is Some,
{
}

/// Captured motion moves focus only to a desktop that touches the one that had
/// it.
pub proof fn law_focus_moves_to_a_touching_desktop(state: ControllerView, event: InputEvent)
    requires
        state.is_valid(),
        input_step(state, event).state.focus != state.focus,
    ensures
        state.focused().bounds.touches(input_step(state, event).state.focused().bounds),
{
    lemma_flush_keeps_validity(state);
    let sent = flush_step(state).state;
    if let Ok(Some((screen, (x, y)))) = crossing_of(state, event) {
        let (px, py) = match event.kind {
            InputKind::PointerRelative { dx_micropixels, dy_micropixels } => destination_pixel(
                state,
                dx_micropixels,
                dy_micropixels,
            ),
            _ => (0, 0),
        };
        let at = choose|index: int| is_first_covering(state.screens, px, py, index);
        assert(is_first_covering(state.screens, px, py, at));
        assert(crate::domain::arrangement::is_placed_well(state.screens, at));
        assert(crate::domain::arrangement::is_first_of_node(state.screens, screen.node, at)) by {
            assert forall|i: int| 0 <= i < at implies (#[trigger] state.screens[i]).node
                != screen.node by {
                if state.screens[i].node == screen.node {
                    assert(crate::domain::arrangement::repeats_node(state.screens, at));
                }
            }
        }
        crate::domain::arrangement::lemma_placement_of(state.screens, screen.node, at);
        lemma_flush_keeps_validity(sent);
    }
}

/// When focus comes home, the capture is released.
pub proof fn law_returning_focus_releases_the_capture(
    state: ControllerView,
    event: ControllerEvent,
)
    requires
        state.is_valid(),
        state.focus != state.local_node,
        step(state, event).outcome is Ok,
        step(state, event).state.focus == state.local_node,
    ensures
        step(state, event).outcome->Ok_0.contains(ActionView::ReleaseCapture),
{
    let actions = step(state, event).outcome->Ok_0;
    lemma_flush_keeps_validity(state);
    let flushed = flush_step(state);
    let sent = flushed.state;
    let count = flushed.outcome->Ok_0.len();
    match event {
        ControllerEvent::Input(input) => {
            if let Ok(Some((target, (x, y)))) = crossing_of(state, input) {
                if let Some(screen) = crate::domain::arrangement::placement_of(
                    state.screens,
                    target.node,
                ) {
                    let moved = focused_on(sent, screen, x, y);
                    let behind = epoch_step(
                        moved,
                        peers(sent.screens, sent.local_node),
                    ).outcome->Ok_0;
                    assert(seq![] + behind =~= behind);
                    assert(behind[0] is ReleaseCapture);
                    assert(actions[count as int] is ReleaseCapture);
                }
            }
        },
        ControllerEvent::Rearrangement { screens } => {
            let moved = rearranged(sent, screens);
            let recipients = peers(sent.screens, sent.local_node).union(
                peers(screens, sent.local_node),
            );
            let behind = epoch_step(moved, recipients).outcome->Ok_0;
            assert(behind[0] is ReleaseCapture);
            assert(actions[count as int] is ReleaseCapture);
        },
        ControllerEvent::Return => {
            assert(actions[0] is ReleaseCapture);
        },
        _ => {},
    }
}

/// The key, button and scroll events of all batches in a series of actions.
pub open spec fn sent_transitions(actions: Seq<ActionView>) -> Seq<InputEvent>
    decreases actions.len(),
{
    if actions.len() == 0 {
        Seq::empty()
    } else {
        let earlier = sent_transitions(actions.drop_last());
        match batch_of(actions.last()) {
            Some(batch) => earlier + crate::session::coalesce::without_motion(batch.events),
            None => earlier,
        }
    }
}

/// No key, button or scroll event is lost, changed or reordered between capture
/// and sending: what is sent, followed by what still waits, is what waited,
/// followed by the captured event.
pub proof fn law_captured_transitions_are_kept(state: ControllerView, event: InputEvent)
    requires
        state.is_valid(),
        state.focus != state.local_node,
        !crate::session::coalesce::is_motion(event),
        input_step(state, event).outcome is Ok,
    ensures
        sent_transitions(input_step(state, event).outcome->Ok_0)
            + crate::session::coalesce::without_motion(input_step(state, event).state.events)
            == crate::session::coalesce::without_motion(state.events).push(event),
{
    lemma_flush_keeps_validity(state);
    assert(input_step(state, event) == buffering_step(state, event));
    let full = state.events.len() >= MAX_INPUT_EVENTS_PER_BATCH
        && !crate::session::coalesce::can_take_up(state.events, event);
    let room = if full {
        flush_step(state)
    } else {
        done(state, seq![])
    };
    let ready = room.state;
    let buffered = crate::session::coalesce::buffered_with(ready.events, event);
    let next = ControllerView { events: buffered, ..ready };
    crate::session::coalesce::law_transitions_survive_buffering(ready.events, event);
    let first = room.outcome->Ok_0;
    if full {
        lemma_sent_by_flush(state);
    }
    if buffered.len() >= MAX_INPUT_EVENTS_PER_BATCH {
        lemma_sent_by_flush(next);
    }
    assert(crate::session::coalesce::without_motion(Seq::<InputEvent>::empty())
        =~= Seq::<InputEvent>::empty()) by {
        reveal(Seq::filter);
    }
    reveal_with_fuel(sent_transitions, 3);
    let actions = input_step(state, event).outcome->Ok_0;
    if buffered.len() >= MAX_INPUT_EVENTS_PER_BATCH {
        let second = flush_step(next).outcome->Ok_0;
        if full {
            assert(ready.events.len() == 0);
            assert(buffered.len() == 1);
        } else {
            assert(actions =~= second);
            assert(sent_transitions(actions) =~= crate::session::coalesce::without_motion(
                buffered,
            ));
        }
    } else {
        assert(actions =~= first);
        if full {
            assert(sent_transitions(actions) =~= crate::session::coalesce::without_motion(
                state.events,
            ));
        } else {
            assert(sent_transitions(actions) =~= Seq::<InputEvent>::empty());
        }
    }
    assert(sent_transitions(actions) + crate::session::coalesce::without_motion(
        input_step(state, event).state.events,
    ) =~= crate::session::coalesce::without_motion(state.events).push(event));
}

proof fn lemma_sent_by_flush(state: ControllerView)
    requires
        flush_step(state).outcome is Ok,
    ensures
        state.events.len() > 0 ==> sent_transitions(flush_step(state).outcome->Ok_0)
            == crate::session::coalesce::without_motion(state.events),
{
    reveal_with_fuel(sent_transitions, 2);
    let actions = flush_step(state).outcome->Ok_0;
    if state.events.len() > 0 {
        assert(actions.drop_last() =~= Seq::<ActionView>::empty());
        assert(Seq::<InputEvent>::empty() + crate::session::coalesce::without_motion(state.events)
            =~= crate::session::coalesce::without_motion(state.events));
    }
}

/// Input that a controller sends to an agent in step with it is applied there,
/// and the acknowledgement that follows the confirmation settles it.
pub proof fn law_sent_input_is_applied_and_settled(
    controller: ControllerView,
    agent: crate::session::agent::AgentView,
)
    requires
        controller.is_valid(),
        agent.is_valid(),
        controller.focus != controller.local_node,
        controller.events.len() > 0,
        controller.deliveries[controller.focus].pending() < MAX_PENDING_BATCHES_PER_PEER,
        controller.deliveries[controller.focus].last_sent < u64::MAX,
        agent.local_node == controller.focus,
        agent.active_epoch == Some(controller.epoch),
        agent.last_applied == controller.deliveries[controller.focus].last_sent,
        agent.pending is None,
        !agent.closed,
    ensures
        ({
            let flushed = flush_step(controller);
            let batch = batch_of(flushed.outcome->Ok_0[0])->Some_0;
            let received = crate::session::agent::message_step(
                agent,
                crate::protocol::message::SessionView::Input(batch),
            );
            let confirmed = crate::session::agent::confirmation_step(
                received.state,
                batch.sequence,
            );
            &&& flushed.outcome is Ok
            &&& flushed.outcome->Ok_0.len() == 1
            &&& batch_of(flushed.outcome->Ok_0[0]) is Some
            &&& received.outcome == Ok::<
                Seq<crate::session::agent::ActionView>,
                crate::session::agent::AgentError,
            >(seq![crate::session::agent::ActionView::ApplyInput(batch)])
            &&& confirmed.outcome == Ok::<
                Seq<crate::session::agent::ActionView>,
                crate::session::agent::AgentError,
            >(seq![crate::session::agent::acknowledgement(batch.sequence)])
            &&& acknowledged(flushed.state, controller.focus, batch.sequence) matches Ok(
                (settled, count),
            ) && settled.deliveries[controller.focus].pending() == 0 && count >= 1
        }),
{
    assert(controller.deliveries.dom().contains(controller.focus));
}

impl ControllerError {
    /// The error in words.
    pub open spec fn text(self) -> Seq<char> {
        match self {
            ControllerError::LocalNodeMissing(node) => {
                "local node `"@ + node@ + "` is missing from the topology"@
            },
            ControllerError::UnknownPeer(node) => "node `"@ + node@ + "` is not a routable peer"@,
            ControllerError::CaptureAlreadyActive(node) => {
                "capture is already routing to `"@ + node@ + "`"@
            },
            ControllerError::NoAdjacentScreen { edge, offset } => {
                "edge "@ + edge.name_text() + " at offset "@ + crate::text::decimal(offset as nat)
                    + " has no adjacent screen"@
            },
            ControllerError::InputWhileLocal => "captured input arrived while focus was local"@,
            ControllerError::Backpressure { peer, maximum } => {
                "peer `"@ + peer@ + "` has "@ + crate::text::decimal(maximum as nat)
                    + " unacknowledged batches"@
            },
            ControllerError::SequenceExhausted(node) => {
                "input sequence for peer `"@ + node@ + "` is exhausted"@
            },
            ControllerError::FocusEpochExhausted => "focus epoch is exhausted"@,
            ControllerError::AcknowledgementBeyondSent { peer, acknowledged, last_sent } => {
                "peer `"@ + peer@ + "` acknowledged sequence "@
                    + crate::text::decimal(acknowledged as nat) + ", but only "@
                    + crate::text::decimal(last_sent as nat) + " was sent"@
            },
            ControllerError::PointerCoordinateOverflow => {
                "pointer coordinates exceed the supported range"@
            },
        }
    }

    /// The error in words.
    pub fn message(&self) -> (message: String)
        ensures
            message@ == self.text(),
    {
        let mut message = String::new();
        match self {
            ControllerError::LocalNodeMissing(node) => {
                message.append("local node `");
                message.append(node.as_str());
                message.append("` is missing from the topology");
            },
            ControllerError::UnknownPeer(node) => {
                message.append("node `");
                message.append(node.as_str());
                message.append("` is not a routable peer");
            },
            ControllerError::CaptureAlreadyActive(node) => {
                message.append("capture is already routing to `");
                message.append(node.as_str());
                message.append("`");
            },
            ControllerError::NoAdjacentScreen { edge, offset } => {
                message.append("edge ");
                message.append(edge.name());
                message.append(" at offset ");
                push_decimal(&mut message, *offset as u64);
                message.append(" has no adjacent screen");
            },
            ControllerError::InputWhileLocal => {
                message.append("captured input arrived while focus was local");
            },
            ControllerError::Backpressure { peer, maximum } => {
                message.append("peer `");
                message.append(peer.as_str());
                message.append("` has ");
                push_decimal(&mut message, *maximum as u64);
                message.append(" unacknowledged batches");
            },
            ControllerError::SequenceExhausted(node) => {
                message.append("input sequence for peer `");
                message.append(node.as_str());
                message.append("` is exhausted");
            },
            ControllerError::FocusEpochExhausted => message.append("focus epoch is exhausted"),
            ControllerError::AcknowledgementBeyondSent { peer, acknowledged, last_sent } => {
                message.append("peer `");
                message.append(peer.as_str());
                message.append("` acknowledged sequence ");
                push_decimal(&mut message, *acknowledged as u64);
                message.append(", but only ");
                push_decimal(&mut message, *last_sent as u64);
                message.append(" was sent");
            },
            ControllerError::PointerCoordinateOverflow => {
                message.append("pointer coordinates exceed the supported range");
            },
        }
        assert(message@ =~= self.text());
        message
    }
}

} // verus!
