//! Rules of the capture and injection services.

use vstd::prelude::*;

use crate::config::EdgePosition;
use crate::domain::input::InputEvent;
use crate::domain::topology::Edge;
use crate::platform::geometry::DesktopGeometry;
use crate::platform::report::{BackendError, BackendKind};

verus! {

pub const COMMAND_QUEUE_CAPACITY: usize = 32;

pub const SERVICE_QUEUE_CAPACITY: usize = 1024;

/// The edges that a capture session watches.
pub fn all_capture_edges() -> (edges: [Edge; 4])
    ensures
        edges@ == seq![Edge::Left, Edge::Right, Edge::Top, Edge::Bottom],
{
    let edges = [Edge::Left, Edge::Right, Edge::Top, Edge::Bottom];
    assert(edges@ =~= seq![Edge::Left, Edge::Right, Edge::Top, Edge::Bottom]);
    edges
}

/// Whether the edge is among them.
pub fn holds_edge(edges: &[Edge], edge: Edge) -> (result: bool)
    ensures
        result == edges@.contains(edge),
{
    let mut index: usize = 0;
    while index < edges.len()
        invariant
            index <= edges@.len(),
            forall|i: int| 0 <= i < index ==> #[trigger] edges@[i] != edge,
        decreases edges@.len() - index,
    {
        if edges[index] == edge {
            return true;
        }
        index += 1;
    }
    false
}

/// Checks that no edge is named twice.
pub fn validate_edges(edges: &[Edge]) -> (result: Result<(), BackendError>)
    ensures
        match result {
            Ok(()) => edges@.no_duplicates(),
            Err(error) => !edges@.no_duplicates() && (error matches BackendError::Unavailable {
                reason,
            } && reason@ == "capture edges must be unique"@),
        },
{
    let mut later: usize = 0;
    while later < edges.len()
        invariant
            later <= edges@.len(),
            forall|i: int, j: int|
                0 <= i < j < later ==> #[trigger] edges@[i] != #[trigger] edges@[j],
        decreases edges@.len() - later,
    {
        let mut earlier: usize = 0;
        while earlier < later
            invariant
                earlier <= later < edges@.len(),
                forall|i: int| 0 <= i < earlier ==> #[trigger] edges@[i] != edges@[later as int],
            decreases later - earlier,
        {
            if edges[earlier] == edges[later] {
                assert(edges@[earlier as int] == edges@[later as int]);
                return Err(
                    BackendError::Unavailable {
                        reason: "capture edges must be unique".to_owned(),
                    },
                );
            }
            earlier += 1;
        }
        later += 1;
    }
    Ok(())
}

/// Takes the number of a new injection session. The last number is never given
/// out, so that none comes twice.
pub fn take_injection_generation(next: &mut u64) -> (result: Result<u64, BackendError>)
    ensures
        match result {
            Ok(generation) => *old(next) < u64::MAX && generation == *old(next) && *final(next)
                == *old(next) + 1,
            Err(error) => *old(next) == u64::MAX && *final(next) == *old(next) && error
                == BackendError::SessionGenerationExhausted,
        },
{
    let generation: u64 = *next;
    if generation == u64::MAX {
        return Err(BackendError::SessionGenerationExhausted);
    }
    *next = generation + 1;
    Ok(generation)
}

/// Why a command was not queued.
#[derive(Clone, Copy, Debug, PartialEq, Eq, Structural)]
pub enum SendFailure {
    Full,
    Closed,
}

/// The error of a command that was not queued.
pub fn map_try_send_error(failure: SendFailure) -> (error: BackendError)
    ensures
        error == match failure {
            SendFailure::Full => BackendError::CommandQueueFull,
            SendFailure::Closed => BackendError::WorkerStopped,
        },
{
    match failure {
        SendFailure::Full => BackendError::CommandQueueFull,
        SendFailure::Closed => BackendError::WorkerStopped,
    }
}

/// Checks that a batch has something to inject.
pub fn check_batch(events: &Vec<InputEvent>) -> (result: Result<(), BackendError>)
    ensures
        result == if events@.len() == 0 {
            Err::<(), BackendError>(BackendError::EmptyInputBatch)
        } else {
            Ok(())
        },
{
    if events.is_empty() {
        return Err(BackendError::EmptyInputBatch);
    }
    Ok(())
}

/// What a capture service tells.
#[derive(Debug)]
pub enum CaptureServiceEvent {
    Ready { backend: BackendKind },
    /// An edge was crossed, at this place if it is known.
    Activated { edge: Edge, edge_position: Option<EdgePosition> },
    DesktopChanged(DesktopGeometry),
    Input(InputEvent),
    Released,
    Failed { operation: &'static str, reason: String },
    Stopped,
}

/// What an injection service tells.
#[derive(Debug)]
pub enum InjectionServiceEvent {
    Ready { backend: BackendKind },
    DesktopChanged(DesktopGeometry),
    Applied { generation: u64, sequence: u64 },
    Released { generation: u64 },
    Failed { operation: &'static str, reason: String },
    Stopped,
}

} // verus!
