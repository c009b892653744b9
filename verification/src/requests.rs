//! Requests for a path, and the queue that holds at most one of them for
//! each agent until the next scheduling cycle takes them.

use std::collections::HashMap;
use vstd::prelude::*;

use crate::dna::Dna;
use crate::grid::GridPos;
use crate::state::Destination;
use crate::steering::tile_coordinate;
use crate::steering::world2d_to_grid;
use crate::steering::WorldPoint;

verus! {

broadcast use vstd::std_specs::hash::group_hash_axioms;

/// What one agent asks for: a path from `from` to `to`, with the seed that
/// breaks ties for it. Without a seed the search weighs every move at its
/// plain cost.
#[derive(Clone, Copy, Debug, PartialEq, Eq, Structural)]
pub struct PathFindingRequest {
    pub from: GridPos,
    pub to: GridPos,
    pub seed: Option<u64>,
}

/// The pending requests, one at most for each agent. An agent is known by
/// the number of its entity.
pub struct PathFindingRequests {
    requests: HashMap<u64, PathFindingRequest>,
}

impl View for PathFindingRequests {
    type V = Map<u64, PathFindingRequest>;

    closed spec fn view(&self) -> Map<u64, PathFindingRequest> {
        self.requests@
    }
}

impl Default for PathFindingRequests {
    fn default() -> (queue: PathFindingRequests)
        ensures
            queue@ == Map::<u64, PathFindingRequest>::empty(),
    {
        PathFindingRequests::new()
    }
}

/// The queue after `entity` has asked for `request`: a request that was
/// pending for the same agent is gone.
pub open spec fn submitted(
    queue: Map<u64, PathFindingRequest>,
    entity: u64,
    request: PathFindingRequest,
) -> Map<u64, PathFindingRequest> {
    queue.insert(entity, request)
}

/// What a drain hands out.
pub open spec fn drained(queue: Map<u64, PathFindingRequest>) -> Map<u64, PathFindingRequest> {
    queue
}

/// What a drain leaves behind.
pub open spec fn after_drain(queue: Map<u64, PathFindingRequest>) -> Map<u64, PathFindingRequest> {
    Map::empty()
}

impl PathFindingRequests {
    /// A queue without requests.
    pub fn new() -> (queue: PathFindingRequests)
        ensures
            queue@ == Map::<u64, PathFindingRequest>::empty(),
    {
        PathFindingRequests { requests: HashMap::new() }
    }

    /// Number of agents with a pending request.
    pub fn len(&self) -> (n: usize)
        ensures
            n == self@.len(),
    {
        self.requests.len()
    }

    /// The pending request of `entity`, if it has one.
    pub fn pending(&self, entity: u64) -> (r: Option<PathFindingRequest>)
        ensures
            r == if self@.contains_key(entity) {
                Some(self@[entity])
            } else {
                None
            },
    {
        match self.requests.get(&entity) {
            Some(request) => Some(*request),
            None => None,
        }
    }

    /// Records `request` for `entity`, in place of any request that was
    /// pending for it.
    pub fn request(&mut self, entity: u64, request: PathFindingRequest)
        ensures
            final(self)@ == submitted(old(self)@, entity, request),
    {
        self.requests.insert(entity, request);
    }

    /// Takes every pending request out of the queue, all at once.
    pub fn take(&mut self) -> (taken: HashMap<u64, PathFindingRequest>)
        ensures
            taken@ == drained(old(self)@),
            final(self)@ == after_drain(old(self)@),
    {
        let mut taken: HashMap<u64, PathFindingRequest> = HashMap::new();
        std::mem::swap(&mut self.requests, &mut taken);
        taken
    }
}

/// The request of an agent that stands at `position` in the world, was
/// given `destination` and carries `dna`.
pub open spec fn request_of(
    position: WorldPoint,
    destination: Destination,
    dna: Dna,
) -> PathFindingRequest {
    PathFindingRequest {
        from: GridPos { x: tile_coordinate(position.x), y: tile_coordinate(position.y) },
        to: destination.0,
        seed: Some(dna.value()),
    }
}

/// Queues the search of an agent that has a new destination: from the tile
/// it stands on to the destination, seeded with its dna. A request that
/// the agent had pending is replaced.
pub fn schedule_new_path_finding(
    requests: &mut PathFindingRequests,
    entity: u64,
    position: &WorldPoint,
    destination: &Destination,
    dna: &Dna,
)
    ensures
        final(requests)@ == submitted(
            old(requests)@,
            entity,
            request_of(*position, *destination, *dna),
        ),
{
    let current_tile = world2d_to_grid(position);
    requests.request(
        entity,
        PathFindingRequest { from: current_tile, to: destination.0, seed: Some(dna.seed()) },
    );
}

/// The requests of `entries` by agent. Where the agents are all different,
/// each entry is found under its agent.
pub open spec fn by_agent(entries: Seq<(u64, PathFindingRequest)>) -> Map<u64, PathFindingRequest> {
    Map::new(
        |e: u64| exists|i: int| 0 <= i < entries.len() && (#[trigger] entries[i]).0 == e,
        |e: u64| entries[choose|i: int| 0 <= i < entries.len() && (#[trigger] entries[i]).0 == e].1,
    )
}

/// No agent occurs twice in `entries`.
pub open spec fn distinct_agents(entries: Seq<(u64, PathFindingRequest)>) -> bool {
    forall|i: int, j: int|
        0 <= i < j < entries.len() ==> (#[trigger] entries[i]).0 != (#[trigger] entries[j]).0
}

/// The taken requests as a list, in the order in which the map hands them
/// out. Which order that is, the map does not say.
pub fn in_dispatch_order(
    taken: &HashMap<u64, PathFindingRequest>,
) -> (waiting: Vec<(u64, PathFindingRequest)>)
    ensures
        distinct_agents(waiting@),
        by_agent(waiting@) == taken@,
{
    let mut waiting: Vec<(u64, PathFindingRequest)> = Vec::new();
    for pair in it: taken.iter()
        invariant
            waiting@.len() == it.index(),
            it.seq().no_duplicates(),
            forall|j: int|
                0 <= j < it.seq().len() ==> taken@.contains_key(*(#[trigger] it.seq()[j]).0)
                    && taken@[*it.seq()[j].0] == *it.seq()[j].1,
            forall|k: u64| #[trigger]
                taken@.contains_key(k) ==> by_agent(waiting@).contains_key(k) || exists|j: int|
                    waiting@.len() <= j < it.seq().len() && *(#[trigger] it.seq()[j]).0 == k,
            forall|j: int|
                0 <= j < waiting@.len() ==> (#[trigger] waiting@[j]) == (
                    *it.seq()[j].0,
                    *it.seq()[j].1,
                ),
            forall|j: int|
                0 <= j < waiting@.len() ==> taken@.contains_key((#[trigger] waiting@[j]).0)
                    && taken@[waiting@[j].0] == waiting@[j].1,
            distinct_agents(waiting@),
    {
        let (entity, request) = pair;
        let ghost earlier = waiting@;
        proof {
            let n = waiting@.len() as int;
            assert(it.seq()[n] == (entity, request));
            assert forall|i: int| 0 <= i < n implies (#[trigger] waiting@[i]).0 != *entity by {
                if waiting@[i].0 == *entity {
                    assert(it.seq()[i] == it.seq()[n]);
                }
            }
        }
        waiting.push((*entity, *request));
        proof {
            let n = earlier.len() as int;
            assert forall|k: u64| #[trigger] taken@.contains_key(k) implies by_agent(
                waiting@,
            ).contains_key(k) || exists|j: int|
                waiting@.len() <= j < it.seq().len() && *(#[trigger] it.seq()[j]).0 == k by {
                if by_agent(earlier).contains_key(k) {
                    let i = choose|i: int| 0 <= i < earlier.len() && (#[trigger] earlier[i]).0 == k;
                    assert(waiting@[i].0 == k);
                } else {
                    let j = choose|j: int|
                        n <= j < it.seq().len() && *(#[trigger] it.seq()[j]).0 == k;
                    if j == n {
                        assert(waiting@[n].0 == k);
                    }
                }
            }
        }
    }
    proof {
        assert forall|k: u64| by_agent(waiting@).contains_key(k) implies taken@.contains_key(
            k,
        ) by {
            let i = choose|i: int| 0 <= i < waiting@.len() && (#[trigger] waiting@[i]).0 == k;
            assert(taken@.contains_key(waiting@[i].0));
        }
        assert forall|k: u64| #[trigger] taken@.contains_key(k) implies by_agent(
            waiting@,
        ).contains_key(k) && by_agent(waiting@)[k] == taken@[k] by {
            assert(by_agent(waiting@).contains_key(k));
            let i = choose|i: int| 0 <= i < waiting@.len() && (#[trigger] waiting@[i]).0 == k;
            assert(taken@[waiting@[i].0] == waiting@[i].1);
        }
        assert(by_agent(waiting@) =~= taken@);
    }
    waiting
}

/// Time that one cycle may spend on starting searches, in nanoseconds.
pub const BATCH_BUDGET_NANOS: u128 = 1_000_000;

/// The requests of one scheduling cycle: those that were started, and those
/// that still wait.
pub struct SearchBatch {
    waiting: Vec<(u64, PathFindingRequest)>,
    started: usize,
    closed: bool,
}

impl SearchBatch {
    /// All requests of the cycle, in the order in which they are started.
    pub closed spec fn requests(&self) -> Seq<(u64, PathFindingRequest)> {
        self.waiting@
    }

    /// How many of them have been started.
    pub closed spec fn started(&self) -> nat {
        self.started as nat
    }

    /// Whether the cycle has run out of time.
    pub closed spec fn is_closed(&self) -> bool {
        self.closed
    }

    /// No more requests were started than there are, and no agent has two
    /// of them.
    pub open spec fn wf(&self) -> bool {
        &&& self.started() <= self.requests().len()
        &&& distinct_agents(self.requests())
    }

    /// The requests that have not been started.
    pub open spec fn rest(&self) -> Seq<(u64, PathFindingRequest)> {
        self.requests().subrange(self.started() as int, self.requests().len() as int)
    }

    /// Whether one more search may start when `elapsed_nanos` have gone by
    /// since the cycle began: the first one always may, a later one only
    /// within the budget, and none once a request was held back.
    pub open spec fn may_start(&self, elapsed_nanos: u128) -> bool {
        &&& self.started() < self.requests().len()
        &&& !self.is_closed()
        &&& (self.started() == 0 || elapsed_nanos <= BATCH_BUDGET_NANOS)
    }

    /// The request to start next, or `None` when none is left or the time
    /// is up. After a `None` for want of time the batch hands out nothing
    /// more.
    pub fn next_request(&mut self, elapsed_nanos: u128) -> (r: Option<(u64, PathFindingRequest)>)
        requires
            old(self).wf(),
        ensures
            final(self).wf(),
            final(self).requests() == old(self).requests(),
            r is Some <==> old(self).may_start(elapsed_nanos),
            r matches Some(entry) ==> {
                &&& entry == old(self).requests()[old(self).started() as int]
                &&& final(self).started() == old(self).started() + 1
                &&& final(self).is_closed() == old(self).is_closed()
            },
            r is None ==> {
                &&& final(self).started() == old(self).started()
                &&& final(self).is_closed() == (old(self).is_closed() || old(self).started()
                    < old(self).requests().len())
            },
    {
        if self.started >= self.waiting.len() || self.closed {
            return None;
        }
        if self.started > 0 && elapsed_nanos > BATCH_BUDGET_NANOS {
            self.closed = true;
            return None;
        }
        let entry = self.waiting[self.started];
        self.started = self.started + 1;
        Some(entry)
    }

    /// Number of requests that have not been started.
    pub fn remaining(&self) -> (n: usize)
        requires
            self.wf(),
        ensures
            n == self.rest().len(),
    {
        self.waiting.len() - self.started
    }

    /// Ends the cycle: each request that was not started goes back into
    /// `requests` for the next cycle, unless its agent has asked for
    /// something else meanwhile.
    pub fn defer_rest(self, requests: &mut PathFindingRequests)
        requires
            self.wf(),
        ensures
            final(requests)@ == by_agent(self.rest()).union_prefer_right(old(requests)@),
    {
        let mut i: usize = self.started;
        let ghost before = requests@;
        let ghost from = self.started as int;
        while i < self.waiting.len()
            invariant
                self.wf(),
                from == self.started,
                from <= i <= self.waiting@.len(),
                requests@ == by_agent(self.waiting@.subrange(from, i as int)).union_prefer_right(
                    before,
                ),
            decreases self.waiting@.len() - i,
        {
            let (entity, request) = self.waiting[i];
            let ghost done = self.waiting@.subrange(from, i as int);
            let ghost more = self.waiting@.subrange(from, i + 1);
            let ghost queue = requests@;
            if requests.pending(entity).is_none() {
                requests.request(entity, request);
            }
            proof {
                assert(more[i - from] == (entity, request));
                assert forall|k: u64| #[trigger]
                    by_agent(more).contains_key(k) <==> (k == entity || by_agent(
                        done,
                    ).contains_key(k)) by {
                    if by_agent(more).contains_key(k) {
                        let j = choose|j: int| 0 <= j < more.len() && (#[trigger] more[j]).0 == k;
                        if j < done.len() {
                            assert(done[j].0 == k);
                        }
                    }
                    if by_agent(done).contains_key(k) {
                        let j = choose|j: int| 0 <= j < done.len() && (#[trigger] done[j]).0 == k;
                        assert(more[j].0 == k);
                    }
                }
                assert(!by_agent(done).contains_key(entity)) by {
                    if by_agent(done).contains_key(entity) {
                        let j = choose|j: int|
                            0 <= j < done.len() && (#[trigger] done[j]).0 == entity;
                        assert(self.waiting@[from + j].0 == self.waiting@[i as int].0);
                    }
                }
                assert forall|k: u64| #[trigger]
                    by_agent(more).contains_key(k) implies by_agent(more)[k] == if k == entity {
                    request
                } else {
                    by_agent(done)[k]
                } by {
                    let j = choose|j: int| 0 <= j < more.len() && (#[trigger] more[j]).0 == k;
                    if k == entity {
                        if j < done.len() {
                            assert(done[j].0 == k);
                        }
                    } else {
                        let d = choose|d: int| 0 <= d < done.len() && (#[trigger] done[d]).0 == k;
                        assert(self.waiting@[from + d].0 == self.waiting@[from + j].0);
                    }
                }
                assert(requests@ =~= by_agent(more).union_prefer_right(before));
            }
            i = i + 1;
        }
        proof {
            assert(self.waiting@.subrange(from, self.waiting@.len() as int) == self.rest());
        }
    }
}

/// Begins a scheduling cycle: takes every pending request out of
/// `requests`, to be started one by one while the time of the cycle lasts.
pub fn calculate_paths(requests: &mut PathFindingRequests) -> (batch: SearchBatch)
    ensures
        final(requests)@ == after_drain(old(requests)@),
        batch.wf(),
        batch.started() == 0,
        !batch.is_closed(),
        by_agent(batch.requests()) == drained(old(requests)@),
{
    let taken = requests.take();
    let waiting = in_dispatch_order(&taken);
    SearchBatch { waiting, started: 0, closed: false }
}

/// Nothing is lost in a cycle: each of its requests was started, or waits
/// in the queue once the rest was deferred.
pub proof fn lemma_started_or_deferred(
    requests: Seq<(u64, PathFindingRequest)>,
    started: int,
    queue: Map<u64, PathFindingRequest>,
)
    requires
        0 <= started <= requests.len(),
    ensures
        forall|i: int|
            started <= i < requests.len() ==> by_agent(
                requests.subrange(started, requests.len() as int),
            ).union_prefer_right(queue).contains_key((#[trigger] requests[i]).0),
{
    let rest = requests.subrange(started, requests.len() as int);
    assert forall|i: int| started <= i < requests.len() implies by_agent(
        rest,
    ).union_prefer_right(queue).contains_key((#[trigger] requests[i]).0) by {
        assert(rest[i - started].0 == requests[i].0);
    }
}

/// A cycle with requests starts one of them, however late it is.
pub proof fn lemma_first_request_starts(batch: SearchBatch, elapsed_nanos: u128)
    requires
        batch.started() == 0,
        !batch.is_closed(),
        batch.requests().len() > 0,
    ensures
        batch.may_start(elapsed_nanos),
{
}

/// Draining twice in a row hands out the requests once: the second drain
/// finds nothing.
pub proof fn lemma_second_drain_is_empty(queue: Map<u64, PathFindingRequest>)
    ensures
        drained(after_drain(queue)) == Map::<u64, PathFindingRequest>::empty(),
        after_drain(after_drain(queue)) == after_drain(queue),
{
}

/// Of two requests of one agent before a drain, the later one is the one
/// that the drain hands out, and the only one.
pub proof fn lemma_latest_request_wins(
    queue: Map<u64, PathFindingRequest>,
    entity: u64,
    first: PathFindingRequest,
    second: PathFindingRequest,
)
    ensures
        submitted(submitted(queue, entity, first), entity, second) == submitted(
            queue,
            entity,
            second,
        ),
        drained(submitted(submitted(queue, entity, first), entity, second))[entity] == second,
        queue.dom().finite() ==> submitted(
            submitted(queue, entity, first),
            entity,
            second,
        ).len() == queue.remove(entity).len() + 1,
{
    assert(submitted(submitted(queue, entity, first), entity, second) =~= submitted(
        queue,
        entity,
        second,
    ));
    if queue.dom().finite() {
        assert(queue.insert(entity, second).dom() =~= queue.remove(entity).dom().insert(entity));
    }
}

} // verus!
