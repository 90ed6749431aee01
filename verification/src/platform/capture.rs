//! When captured input is passed on, and when the capture is let go.

use vstd::prelude::*;

use crate::domain::input::InputEvent;
use crate::domain::topology::Edge;
use crate::platform::convert::ConversionError;
use crate::platform::geometry::DesktopGeometry;
use crate::platform::service::holds_edge;
use crate::platform::state::HeldInput;

verus! {

/// What a capture service is doing when it fails.
#[derive(Clone, Copy, Debug, PartialEq, Eq, Structural)]
pub enum CaptureOperation {
    OpenCapture,
    CreateEdge,
    ReleaseCapture,
    ReleaseUnarmed,
    ReleaseChangedDesktop,
    Normalize,
    Capture,
}

impl CaptureOperation {
    pub fn label(self) -> (label: &'static str)
        ensures
            label@ == match self {
                CaptureOperation::OpenCapture => "open native capture"@,
                CaptureOperation::CreateEdge => "create capture edge"@,
                CaptureOperation::ReleaseCapture => "release capture"@,
                CaptureOperation::ReleaseUnarmed => "release unarmed capture"@,
                CaptureOperation::ReleaseChangedDesktop => "release changed desktop"@,
                CaptureOperation::Normalize => "normalize captured input"@,
                CaptureOperation::Capture => "capture input"@,
            },
    {
        match self {
            CaptureOperation::OpenCapture => "open native capture",
            CaptureOperation::CreateEdge => "create capture edge",
            CaptureOperation::ReleaseCapture => "release capture",
            CaptureOperation::ReleaseUnarmed => "release unarmed capture",
            CaptureOperation::ReleaseChangedDesktop => "release changed desktop",
            CaptureOperation::Normalize => "normalize captured input",
            CaptureOperation::Capture => "capture input",
        }
    }
}

/// What follows a release of the native capture.
#[derive(Clone, Copy, Debug, PartialEq, Eq, Structural)]
pub enum AfterRelease {
    Nothing,
    /// The release is confirmed where it succeeded.
    Confirm,
    /// The new desktop is announced in any case.
    Announce(DesktopGeometry),
}

/// What a capture service does next.
#[derive(Clone, Copy, Debug, PartialEq, Eq, Structural)]
pub enum CaptureAction {
    /// An edge was crossed; input follows.
    Activate(Edge),
    /// An input event is passed on.
    PassOn(InputEvent),
    /// The native capture is let go. A failure is reported as this operation.
    Release { operation: CaptureOperation, after: AfterRelease },
    /// A failure is reported.
    Report { operation: CaptureOperation, error: ConversionError },
}

/// Releases to pass on first, then what to do.
#[derive(Debug)]
pub struct CaptureStep {
    pub releases: Vec<InputEvent>,
    pub action: Option<CaptureAction>,
}

/// The edges that may be crossed, what is held down, and whether input is
/// passed on.
#[derive(Debug)]
pub struct CaptureState {
    enabled: Vec<Edge>,
    held: HeldInput,
    accepting: bool,
}

#[verifier::ext_equal]
pub ghost struct CaptureView {
    pub enabled: Set<Edge>,
    pub held: crate::platform::state::HeldView,
    pub accepting: bool,
}

impl View for CaptureState {
    type V = CaptureView;

    closed spec fn view(&self) -> CaptureView {
        CaptureView {
            enabled: self.enabled@.to_set(),
            held: self.held@,
            accepting: self.accepting,
        }
    }
}

/// What happens to a capture service.
pub ghost enum CaptureInput {
    Configure(Set<Edge>),
    Release,
    Activated(Edge),
    Captured(Result<Option<InputEvent>, ConversionError>),
    DesktopChanged(DesktopGeometry),
}

/// Nothing is held down.
pub open spec fn nothing_held() -> crate::platform::state::HeldView {
    crate::platform::state::HeldView { keys: Set::empty(), buttons: Set::empty() }
}

/// Everything that is held down is released on this input.
pub open spec fn lets_go(state: CaptureView, input: CaptureInput) -> bool {
    match input {
        CaptureInput::Configure(edges) => edges != state.enabled,
        CaptureInput::Release | CaptureInput::DesktopChanged(_) => true,
        CaptureInput::Activated(_) | CaptureInput::Captured(_) => false,
    }
}

/// The state of a capture service after an input.
pub open spec fn capture_after(state: CaptureView, input: CaptureInput) -> CaptureView {
    let held = if lets_go(state, input) {
        nothing_held()
    } else {
        state.held
    };
    match input {
        CaptureInput::Configure(edges) => CaptureView {
            enabled: edges,
            held,
            accepting: state.accepting && edges == state.enabled,
        },
        CaptureInput::Release | CaptureInput::DesktopChanged(_) => CaptureView {
            enabled: state.enabled,
            held,
            accepting: false,
        },
        CaptureInput::Activated(edge) => CaptureView {
            accepting: state.enabled.contains(edge),
            ..state
        },
        CaptureInput::Captured(Ok(Some(event))) => if state.accepting {
            CaptureView { held: crate::platform::state::held_after(state.held, event), ..state }
        } else {
            state
        },
        CaptureInput::Captured(_) => state,
    }
}

/// What a capture service does on an input.
pub open spec fn capture_action(state: CaptureView, input: CaptureInput) -> Option<CaptureAction> {
    match input {
        CaptureInput::Configure(edges) => if edges != state.enabled {
            Some(
                CaptureAction::Release {
                    operation: CaptureOperation::ReleaseCapture,
                    after: AfterRelease::Nothing,
                },
            )
        } else {
            None
        },
        CaptureInput::Release => Some(
            CaptureAction::Release {
                operation: CaptureOperation::ReleaseCapture,
                after: AfterRelease::Confirm,
            },
        ),
        CaptureInput::Activated(edge) => if state.enabled.contains(edge) {
            Some(CaptureAction::Activate(edge))
        } else {
            Some(
                CaptureAction::Release {
                    operation: CaptureOperation::ReleaseUnarmed,
                    after: AfterRelease::Nothing,
                },
            )
        },
        CaptureInput::Captured(converted) => if !state.accepting {
            None
        } else {
            match converted {
                Ok(Some(event)) => Some(CaptureAction::PassOn(event)),
                Ok(None) => None,
                Err(error) => Some(
                    CaptureAction::Report { operation: CaptureOperation::Normalize, error },
                ),
            }
        },
        CaptureInput::DesktopChanged(geometry) => Some(
            CaptureAction::Release {
                operation: CaptureOperation::ReleaseChangedDesktop,
                after: AfterRelease::Announce(geometry),
            },
        ),
    }
}

/// `step` is what a capture service does on an input.
pub open spec fn is_capture_step(
    step: CaptureStep,
    state: CaptureView,
    input: CaptureInput,
) -> bool {
    &&& step.action == capture_action(state, input)
    &&& if lets_go(state, input) {
        crate::platform::state::releases_all(step.releases@, state.held, 0)
    } else {
        step.releases@.len() == 0
    }
}

impl CaptureState {
    /// A capture that nothing has crossed into yet.
    pub fn new(edges: Vec<Edge>) -> (state: CaptureState)
        ensures
            state@ == (CaptureView {
                enabled: edges@.to_set(),
                held: nothing_held(),
                accepting: false,
            }),
    {
        CaptureState { enabled: edges, held: HeldInput::new(), accepting: false }
    }

    /// Changes the edges that may be crossed.
    pub fn configure(&mut self, edges: Vec<Edge>) -> (step: CaptureStep)
        ensures
            is_capture_step(step, old(self)@, CaptureInput::Configure(edges@.to_set())),
            final(self)@ == capture_after(old(self)@, CaptureInput::Configure(edges@.to_set())),
    {
        if same_edges(edges.as_slice(), self.enabled.as_slice()) {
            return CaptureStep { releases: Vec::new(), action: None };
        }
        self.accepting = false;
        let releases = self.held.release_all(0);
        self.enabled = edges;
        CaptureStep {
            releases,
            action: Some(
                CaptureAction::Release {
                    operation: CaptureOperation::ReleaseCapture,
                    after: AfterRelease::Nothing,
                },
            ),
        }
    }

    /// Gives the input back to the host.
    pub fn release(&mut self) -> (step: CaptureStep)
        ensures
            is_capture_step(step, old(self)@, CaptureInput::Release),
            final(self)@ == capture_after(old(self)@, CaptureInput::Release),
    {
        self.accepting = false;
        let releases = self.held.release_all(0);
        CaptureStep {
            releases,
            action: Some(
                CaptureAction::Release {
                    operation: CaptureOperation::ReleaseCapture,
                    after: AfterRelease::Confirm,
                },
            ),
        }
    }

    /// The pointer crossed an edge.
    pub fn activated(&mut self, edge: Edge) -> (step: CaptureStep)
        ensures
            is_capture_step(step, old(self)@, CaptureInput::Activated(edge)),
            final(self)@ == capture_after(old(self)@, CaptureInput::Activated(edge)),
    {
        let armed = holds_edge(self.enabled.as_slice(), edge);
        self.accepting = armed;
        let action = if armed {
            CaptureAction::Activate(edge)
        } else {
            CaptureAction::Release {
                operation: CaptureOperation::ReleaseUnarmed,
                after: AfterRelease::Nothing,
            }
        };
        CaptureStep { releases: Vec::new(), action: Some(action) }
    }

    /// Native input came, read as `converted`.
    pub fn captured(&mut self, converted: Result<Option<InputEvent>, ConversionError>) -> (step:
        CaptureStep)
        ensures
            is_capture_step(step, old(self)@, CaptureInput::Captured(converted)),
            final(self)@ == capture_after(old(self)@, CaptureInput::Captured(converted)),
    {
        let action = if !self.accepting {
            None
        } else {
            match converted {
                Ok(Some(event)) => {
                    self.held.observe(event);
                    Some(CaptureAction::PassOn(event))
                },
                Ok(None) => None,
                Err(error) => Some(
                    CaptureAction::Report { operation: CaptureOperation::Normalize, error },
                ),
            }
        };
        CaptureStep { releases: Vec::new(), action }
    }

    /// The desktop of the host changed.
    pub fn desktop_changed(&mut self, geometry: DesktopGeometry) -> (step: CaptureStep)
        ensures
            is_capture_step(step, old(self)@, CaptureInput::DesktopChanged(geometry)),
            final(self)@ == capture_after(old(self)@, CaptureInput::DesktopChanged(geometry)),
    {
        self.accepting = false;
        let releases = self.held.release_all(0);
        CaptureStep {
            releases,
            action: Some(
                CaptureAction::Release {
                    operation: CaptureOperation::ReleaseChangedDesktop,
                    after: AfterRelease::Announce(geometry),
                },
            ),
        }
    }

    /// The events that release everything when the service stops.
    pub fn stop(&mut self) -> (releases: Vec<InputEvent>)
        ensures
            crate::platform::state::releases_all(releases@, old(self)@.held, 0),
            final(self)@ == (CaptureView { held: nothing_held(), ..old(self)@ }),
    {
        self.held.release_all(0)
    }
}

/// Whether both list the same edges, in any order and however often.
fn same_edges(a: &[Edge], b: &[Edge]) -> (result: bool)
    ensures
        result == (a@.to_set() == b@.to_set()),
{
    let left = holds_edge(a, Edge::Left) == holds_edge(b, Edge::Left);
    let right = holds_edge(a, Edge::Right) == holds_edge(b, Edge::Right);
    let top = holds_edge(a, Edge::Top) == holds_edge(b, Edge::Top);
    let bottom = holds_edge(a, Edge::Bottom) == holds_edge(b, Edge::Bottom);
    let result = left && right && top && bottom;
    proof {
        if result {
            assert forall|edge: Edge| #[trigger]
                a@.to_set().contains(edge) <==> b@.to_set().contains(edge) by {
                match edge {
                    Edge::Left => {},
                    Edge::Right => {},
                    Edge::Top => {},
                    Edge::Bottom => {},
                }
            }
            assert(a@.to_set() =~= b@.to_set());
        } else {
            assert(a@.to_set().contains(Edge::Left) == a@.contains(Edge::Left));
            assert(b@.to_set().contains(Edge::Left) == b@.contains(Edge::Left));
            assert(a@.to_set().contains(Edge::Right) == a@.contains(Edge::Right));
            assert(b@.to_set().contains(Edge::Right) == b@.contains(Edge::Right));
            assert(a@.to_set().contains(Edge::Top) == a@.contains(Edge::Top));
            assert(b@.to_set().contains(Edge::Top) == b@.contains(Edge::Top));
            assert(a@.to_set().contains(Edge::Bottom) == a@.contains(Edge::Bottom));
            assert(b@.to_set().contains(Edge::Bottom) == b@.contains(Edge::Bottom));
        }
    }
    result
}

/// Input is passed on only while an armed edge is crossed: after every change
/// of the edges, every release and every change of the desktop, nothing is
/// passed on until an edge is crossed that is armed then.
pub proof fn law_input_needs_an_armed_edge(state: CaptureView, input: CaptureInput)
    ensures
        capture_action(state, input) matches Some(CaptureAction::PassOn(_)) ==> state.accepting,
        !state.accepting && capture_after(state, input).accepting ==> (input
            matches CaptureInput::Activated(edge) && state.enabled.contains(edge)),
        lets_go(state, input) ==> !capture_after(state, input).accepting,
        capture_action(state, input) matches Some(CaptureAction::Activate(edge)) ==> {
            &&& state.enabled.contains(edge)
            &&& capture_after(state, input).accepting
        },
{
}

/// What was passed on is held down by whoever takes it just as it is here, and
/// the releases of a capture that lets go leave nothing held down there.
pub proof fn law_letting_go_releases_what_was_passed_on(
    state: CaptureView,
    input: CaptureInput,
    step: CaptureStep,
)
    requires
        is_capture_step(step, state, input),
        lets_go(state, input),
    ensures
        crate::platform::state::held_after_all(state.held, step.releases@) == capture_after(
            state,
            input,
        ).held,
        capture_after(state, input).held == nothing_held(),
{
    crate::platform::state::law_releases_leave_nothing_held(step.releases@, state.held, 0);
}

} // verus!
