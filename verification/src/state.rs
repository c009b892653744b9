//! Where an agent stands with its navigation: nothing asked, a request in
//! the queue, a search in flight, a path found, or a goal that cannot be
//! reached. An agent is in one of these states at any time, and each event
//! moves it to the next.

use rand::Rng;
use vstd::prelude::*;

use crate::find::FoundPath;
use crate::grid::GridPos;
use crate::grid::MAP_SIZE;

verus! {

/// The destination that an agent has been given.
#[derive(Clone, Copy, Debug, PartialEq, Eq, Structural)]
pub struct Destination(pub GridPos);

/// `Rng::gen_range` on the thread's generator, over `0..limit`: a number
/// below `limit`, as the range asks. Which one is left to chance.
#[verifier::external_body]
fn random_below(limit: u32) -> (r: u32)
    requires
        limit > 0,
    ensures
        r < limit,
{
    rand::thread_rng().gen_range(0..limit)
}

/// A destination somewhere on the map, drawn at random.
pub fn random_destination() -> (destination: Destination)
    ensures
        destination.0.x < MAP_SIZE,
        destination.0.y < MAP_SIZE,
{
    let x: u32 = random_below(MAP_SIZE);
    let y: u32 = random_below(MAP_SIZE);
    Destination(GridPos { x, y })
}

/// The navigation of one agent.
pub enum NavigationState {
    /// No request, no search, no path.
    Idle,
    /// A request for a path to `to` waits in the queue.
    Requested { to: GridPos },
    /// A search for a path to `to` is in flight. `superseded_by` holds the
    /// destination that the agent has been given since the search began; a
    /// request for it waits in the queue.
    Searching { to: GridPos, superseded_by: Option<GridPos> },
    /// The search found `path`; it waits to be turned into a steering
    /// target.
    HasPath { path: FoundPath },
    /// The search found that `to` cannot be reached. Nothing is tried again
    /// until the agent gets a new destination.
    Unreachable { to: GridPos },
}

/// The state after the agent was given the destination `to`. A search in
/// flight goes on, but its result no longer counts.
pub open spec fn assigned(state: NavigationState, to: GridPos) -> NavigationState {
    match state {
        NavigationState::Searching { to: old_to, superseded_by: _ } => NavigationState::Searching {
            to: old_to,
            superseded_by: Some(to),
        },
        _ => NavigationState::Requested { to },
    }
}

/// The state after the agent's request left the queue and its search was
/// started. An older search that was still in flight is replaced.
pub open spec fn launched(state: NavigationState) -> NavigationState {
    match state {
        NavigationState::Requested { to } => NavigationState::Searching {
            to,
            superseded_by: None,
        },
        NavigationState::Searching { to: _, superseded_by: Some(next) } => {
            NavigationState::Searching { to: next, superseded_by: None }
        },
        _ => state,
    }
}

/// The state after one look at the search: `None` while it still runs,
/// else its outcome. The outcome of a superseded search is dropped, and
/// the agent waits for the search of its newer request.
pub open spec fn polled(
    state: NavigationState,
    completion: Option<Option<FoundPath>>,
) -> NavigationState {
    match (state, completion) {
        (NavigationState::Searching { to: _, superseded_by: Some(next) }, Some(_)) => {
            NavigationState::Requested { to: next }
        },
        (NavigationState::Searching { to: _, superseded_by: None }, Some(Some(path))) => {
            NavigationState::HasPath { path }
        },
        (NavigationState::Searching { to, superseded_by: None }, Some(None)) => {
            NavigationState::Unreachable { to }
        },
        _ => state,
    }
}

/// The state after the path, if there was one, was handed on.
pub open spec fn consumed(state: NavigationState) -> NavigationState {
    match state {
        NavigationState::HasPath { path: _ } => NavigationState::Idle,
        _ => state,
    }
}

impl NavigationState {
    /// Whether a search of this agent is in flight.
    pub open spec fn is_searching(self) -> bool {
        self is Searching
    }

    /// The agent was given the destination `destination`.
    pub fn assign(self, destination: Destination) -> (next: NavigationState)
        ensures
            next == assigned(self, destination.0),
    {
        match self {
            NavigationState::Searching { to, superseded_by: _ } => NavigationState::Searching {
                to,
                superseded_by: Some(destination.0),
            },
            _ => NavigationState::Requested { to: destination.0 },
        }
    }

    /// The request of the agent was taken from the queue and its search was
    /// started.
    pub fn launch(self) -> (next: NavigationState)
        ensures
            next == launched(self),
    {
        match self {
            NavigationState::Requested { to } => NavigationState::Searching {
                to,
                superseded_by: None,
            },
            NavigationState::Searching { to: _, superseded_by: Some(next) } => {
                NavigationState::Searching { to: next, superseded_by: None }
            },
            other => other,
        }
    }

    /// The path that waits to be handed on, together with the state after
    /// it was taken.
    pub fn take_path(self) -> (r: (NavigationState, Option<FoundPath>))
        ensures
            r.0 == consumed(self),
            r.1 == match self {
                NavigationState::HasPath { path } => Some(path),
                _ => None,
            },
    {
        match self {
            NavigationState::HasPath { path } => (NavigationState::Idle, Some(path)),
            other => (other, None),
        }
    }
}

/// One look at the search of an agent. `completion` is `None` while the
/// search still runs, `Some(None)` when it ended without a path, and
/// `Some(Some(path))` when it found one.
pub fn handle_completed_path(
    state: NavigationState,
    completion: Option<Option<FoundPath>>,
) -> (next: NavigationState)
    ensures
        next == polled(state, completion),
{
    match completion {
        None => state,
        Some(outcome) => match state {
            NavigationState::Searching { to: _, superseded_by: Some(next) } => {
                NavigationState::Requested { to: next }
            },
            NavigationState::Searching { to, superseded_by: None } => match outcome {
                Some(path) => NavigationState::HasPath { path },
                None => NavigationState::Unreachable { to },
            },
            other => other,
        },
    }
}

/// No stale path: once an agent has a new destination, whatever a search
/// reports next leaves it without a path.
pub proof fn lemma_superseded_result_is_dropped(
    state: NavigationState,
    to: GridPos,
    completion: Option<Option<FoundPath>>,
)
    ensures
        !(polled(assigned(state, to), completion) is HasPath),
        !(polled(assigned(state, to), completion) is Unreachable),
{
}

/// A path is attached only by a search that is in flight and was not
/// superseded, and it is the path that this search found.
pub proof fn lemma_path_comes_from_the_search(
    state: NavigationState,
    completion: Option<Option<FoundPath>>,
)
    requires
        !(state is HasPath),
        polled(state, completion) is HasPath,
    ensures
        state matches NavigationState::Searching { to: _, superseded_by: None },
        completion == Some(Some(polled(state, completion)->path)),
{
}

/// While the search runs, looking at it changes nothing.
pub proof fn lemma_unfinished_search_waits(state: NavigationState)
    ensures
        polled(state, None) == state,
{
}

} // verus!
