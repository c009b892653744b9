//! The search: A* over the mesh, with the octile distance as heuristic and
//! the per-agent perturbation on every edge.

use pathfinding::directed::astar::astar;
use vstd::prelude::*;

use crate::grid::GridPos;
use crate::grid::WalkGrid;
use crate::nav_mesh::key_of;
use crate::nav_mesh::scan;
use crate::nav_mesh::Move;
use crate::nav_mesh::DIAGONAL_COST;
use crate::nav_mesh::STRAIGHT_COST;
use crate::navigation::Navigation;
use crate::requests::PathFindingRequest;
use crate::route::gap;
use crate::route::is_route;
use crate::route::is_step;
use crate::route::lemma_octile_admissible;
use crate::route::lemma_scan_is_steps;
use crate::route::lemma_weight_bounds;
use crate::route::lemma_weight_unperturbed;
use crate::route::octile;
use crate::route::route_cost;
use crate::route::route_weight;
use crate::route::step_at;
use crate::route::step_cost;
use crate::route::step_weight;
use crate::tie_breaker::add_entity_tie_breaker;
use crate::tie_breaker::lemma_perturbation_bound;
use crate::tie_breaker::perturbed;
use crate::tie_breaker::perturbation_of;
use crate::tie_breaker::MAX_TIE_BREAKER;

verus! {

/// The tiles of a path that a search found, from the start to the goal.
#[derive(Clone, Debug)]
pub struct FoundPath(pub Vec<GridPos>);

impl View for FoundPath {
    type V = Seq<GridPos>;

    open spec fn view(&self) -> Seq<GridPos> {
        self.0@
    }
}

fn coordinate_gap(a: u32, b: u32) -> (d: u32)
    ensures
        d == gap(a, b),
{
    if a >= b {
        a - b
    } else {
        b - a
    }
}

/// The octile distance between two tiles, in cost units.
pub fn heuristic(from: GridPos, to: GridPos) -> (h: u32)
    requires
        octile(from, to) <= u32::MAX,
    ensures
        h == octile(from, to),
{
    let dx: u32 = coordinate_gap(from.x, to.x);
    let dy: u32 = coordinate_gap(from.y, to.y);
    let long: u32 = if dx >= dy {
        dx
    } else {
        dy
    };
    let short: u32 = if dx >= dy {
        dy
    } else {
        dx
    };
    assert(STRAIGHT_COST * long <= octile(from, to));
    STRAIGHT_COST * long + (DIAGONAL_COST - STRAIGHT_COST) * short
}

/// What a search with `seed` is shown when it asks for the moves that
/// leave `cell`: the tiles of a fresh scan, in its order, each with the
/// weight of the step.
pub open spec fn successors_of(
    grid: &WalkGrid,
    cell: GridPos,
    seed: Option<u64>,
) -> Seq<((u32, u32), u32)> {
    Seq::new(
        scan(grid, cell).len(),
        |i: int|
            (
                key_of(scan(grid, cell)[i].destination),
                (scan(grid, cell)[i].cost + perturbation_of(seed, scan(grid, cell)[i].destination))
                    as u32,
            ),
    )
}

/// The successor list of a tile holds a pair for exactly the steps from
/// it, each with the weight of that step.
pub proof fn lemma_successors_are_steps(grid: &WalkGrid, cell: GridPos, seed: Option<u64>)
    requires
        grid.wf(),
    ensures
        forall|b: GridPos, w: u32| #[trigger]
            successors_of(grid, cell, seed).contains((key_of(b), w)) <==> is_step(grid, cell, b)
                && w == step_weight(seed, cell, b),
{
    let moves = scan(grid, cell);
    let pairs = successors_of(grid, cell, seed);
    lemma_scan_is_steps(grid, cell);
    assert forall|b: GridPos, w: u32| #[trigger]
        pairs.contains((key_of(b), w)) <==> is_step(grid, cell, b) && w == step_weight(
            seed,
            cell,
            b,
        ) by {
        lemma_perturbation_bound(seed, b);
        if pairs.contains((key_of(b), w)) {
            let i = choose|i: int| 0 <= i < pairs.len() && pairs[i] == (key_of(b), w);
            assert(moves.contains(moves[i]));
            assert(moves[i].destination == b);
        }
        if is_step(grid, cell, b) && w == step_weight(seed, cell, b) {
            let m = Move { destination: b, cost: step_cost(cell, b) as u32 };
            assert(moves.contains(m));
            let i = choose|i: int| 0 <= i < moves.len() && moves[i] == m;
            assert(pairs[i] == (key_of(b), w));
        }
    }
}

/// The moves that leave `node`, as the search takes them: pairs of a tile
/// and the perturbed weight of the step to it.
pub fn successors(
    nav: &Navigation,
    node: (u32, u32),
    seed: Option<u64>,
) -> (r: Vec<((u32, u32), u32)>)
    requires
        nav.wf(),
    ensures
        r@ == successors_of(&nav.grid(), GridPos { x: node.0, y: node.1 }, seed),
{
    let cell = GridPos { x: node.0, y: node.1 };
    let moves = nav.neighbours(cell);
    proof {
        lemma_scan_is_steps(&nav.grid(), cell);
        assert forall|i: int| 0 <= i < moves@.len() implies moves@[i].cost + MAX_TIE_BREAKER
            <= u32::MAX by {
            assert(moves@.contains(moves@[i]));
        }
    }
    let weighted = match seed {
        Some(s) => add_entity_tie_breaker(s, moves),
        None => moves,
    };
    let mut r: Vec<((u32, u32), u32)> = Vec::with_capacity(weighted.len());
    let mut i: usize = 0;
    while i < weighted.len()
        invariant
            i <= weighted@.len(),
            weighted@ == perturbed(seed, scan(&nav.grid(), cell)),
            r@ == successors_of(&nav.grid(), cell, seed).subrange(0, i as int),
        decreases weighted@.len() - i,
    {
        let m = weighted[i];
        r.push(((m.destination.x, m.destination.y), m.cost));
        i = i + 1;
    }
    r
}

/// The estimate that the search uses for the way from `node` to `to`.
fn heuristic_to(node: (u32, u32), to: (u32, u32)) -> (h: u32)
    requires
        octile(GridPos { x: node.0, y: node.1 }, GridPos { x: to.0, y: to.1 }) <= u32::MAX,
    ensures
        h == octile(GridPos { x: node.0, y: node.1 }, GridPos { x: to.0, y: to.1 }),
{
    heuristic(GridPos { x: node.0, y: node.1 }, GridPos { x: to.0, y: to.1 })
}

/// The goal test of the search: the same column and the same row.
fn is_goal(node: (u32, u32), to: (u32, u32)) -> (b: bool)
    ensures
        b == (node == to),
{
    node.0 == to.0 && node.1 == to.1
}

/// The tiles of a path as grid positions.
pub open spec fn cells_of(path: Seq<(u32, u32)>) -> Seq<GridPos> {
    Seq::new(path.len(), |i: int| GridPos { x: path[i].0, y: path[i].1 })
}

/// A search result with its path as a sequence.
pub open spec fn outcome_of(r: Option<(Vec<(u32, u32)>, u32)>) -> Option<(Seq<(u32, u32)>, u32)> {
    match r {
        Some((path, weight)) => Some((path@, weight)),
        None => None,
    }
}

/// What `astar` returns for a map of the given extents and flags, a start,
/// a goal and a seed, when both ends are walkable.
pub uninterp spec fn astar_outcome(
    width: nat,
    height: nat,
    flags: Seq<bool>,
    from: (u32, u32),
    to: (u32, u32),
    seed: Option<u64>,
) -> Option<(Seq<(u32, u32)>, u32)>;

/// The successor lists that a search with `seed` is shown hold exactly the
/// steps of the grid, each with its weight.
pub open spec fn edges_are_steps(grid: &WalkGrid, seed: Option<u64>) -> bool {
    forall|a: GridPos, b: GridPos, w: u32| #[trigger]
        successors_of(grid, a, seed).contains((key_of(b), w)) <==> is_step(grid, a, b) && w
            == step_weight(seed, a, b)
}

/// The octile distance to `to` is never above the weight of a route that
/// leads there.
pub open spec fn never_overestimates(grid: &WalkGrid, seed: Option<u64>, to: GridPos) -> bool {
    forall|n: GridPos, q: Seq<GridPos>| #[trigger]
        is_route(grid, n, to, q) ==> octile(n, to) <= route_weight(seed, q)
}

/// `path` is a route from `from` to `to` that no other route outweighs
/// for a search with `seed`.
pub open spec fn lightest_route(
    grid: &WalkGrid,
    seed: Option<u64>,
    from: GridPos,
    to: GridPos,
    path: Seq<GridPos>,
) -> bool {
    &&& is_route(grid, from, to, path)
    &&& forall|q: Seq<GridPos>| #[trigger]
        is_route(grid, from, to, q) ==> route_weight(seed, path) <= route_weight(seed, q)
}

/// `path` is a route from `from` to `to` of the least cost there is.
pub open spec fn cheapest_route(grid: &WalkGrid, from: GridPos, to: GridPos, path: Seq<GridPos>) -> bool {
    &&& is_route(grid, from, to, path)
    &&& forall|q: Seq<GridPos>| #[trigger]
        is_route(grid, from, to, q) ==> route_cost(path) <= route_cost(q)
}

/// No tile can be reached from `from` in a way that ends at `to`.
pub open spec fn unreachable(grid: &WalkGrid, from: GridPos, to: GridPos) -> bool {
    forall|q: Seq<GridPos>| !#[trigger] is_route(grid, from, to, q)
}

/// `pathfinding::directed::astar::astar`, started at `from`, with
/// `successors` for the edges, `heuristic_to` for the estimate and `is_goal`
/// for the goal test.
///
/// Believed of it, as its documentation says: where the estimate is never
/// above the real weight of the way to the goal, it returns a shortest path
/// from the start to the goal over the edges it was shown, both ends
/// included, together with the total weight of that path; and `None` where
/// no path leads to the goal. Its source draws on no random state, so the
/// same edges, estimate and ends give the same path: `astar_outcome` names
/// it.
///
/// That both ends are walkable keeps the sums of the search within `u32`:
/// every tile it meets lies on the map, so no path it weighs has more than
/// `MAP_SIZE * MAP_SIZE` moves of at most `DIAGONAL_COST + MAX_TIE_BREAKER`
/// each, and no estimate exceeds `DIAGONAL_COST * MAP_SIZE`. The map being
/// finite, the search ends. The last two conditions say in the terms of
/// routes what `successors` and `heuristic_to` are proved to return.
#[verifier::external_body]
fn astar_route(
    nav: &Navigation,
    from: GridPos,
    to: GridPos,
    seed: Option<u64>,
) -> (r: Option<(Vec<(u32, u32)>, u32)>)
    requires
        nav.wf(),
        nav.grid().walkable(from),
        nav.grid().walkable(to),
        edges_are_steps(&nav.grid(), seed),
        never_overestimates(&nav.grid(), seed, to),
    ensures
        outcome_of(r) == astar_outcome(
            nav.grid().spec_width(),
            nav.grid().spec_height(),
            nav.grid().flags(),
            key_of(from),
            key_of(to),
            seed,
        ),
        r matches Some((path, weight)) ==> lightest_route(
            &nav.grid(),
            seed,
            from,
            to,
            cells_of(path@),
        ) && weight == route_weight(seed, cells_of(path@)),
        r is None ==> unreachable(&nav.grid(), from, to),
{
    let goal = (to.x, to.y);
    astar(
        &(from.x, from.y),
        |n| successors(nav, *n, seed),
        |n| heuristic_to(*n, goal),
        |n| is_goal(*n, goal),
    )
}

/// The path of a result, as positions.
pub open spec fn found_of(outcome: Option<(Seq<(u32, u32)>, u32)>) -> Option<Seq<GridPos>> {
    match outcome {
        Some((path, _)) => Some(cells_of(path)),
        None => None,
    }
}

/// The path that a search returned, as a sequence.
pub open spec fn path_of(r: Option<FoundPath>) -> Option<Seq<GridPos>> {
    match r {
        Some(found) => Some(found@),
        None => None,
    }
}

/// Turns what the search returned into its outcome: the path without its
/// weight, or `None` for a goal that cannot be reached.
pub fn resolve_search(result: Option<(Vec<(u32, u32)>, u32)>) -> (r: Option<FoundPath>)
    ensures
        path_of(r) == found_of(outcome_of(result)),
{
    match result {
        Some((path, _)) => {
            let mut cells: Vec<GridPos> = Vec::with_capacity(path.len());
            let mut i: usize = 0;
            while i < path.len()
                invariant
                    i <= path@.len(),
                    cells@ == cells_of(path@).subrange(0, i as int),
                decreases path@.len() - i,
            {
                let node = path[i];
                cells.push(GridPos { x: node.0, y: node.1 });
                i = i + 1;
            }
            Some(FoundPath(cells))
        },
        None => None,
    }
}

/// What a search for `request` over `grid` returns. It depends on the grid
/// and the request alone: not on what the mesh holds, nor on the searches
/// that run beside it.
pub open spec fn search_outcome(
    grid: &WalkGrid,
    request: PathFindingRequest,
) -> Option<Seq<GridPos>> {
    if grid.walkable(request.from) && grid.walkable(request.to) {
        found_of(
            astar_outcome(
                grid.spec_width(),
                grid.spec_height(),
                grid.flags(),
                key_of(request.from),
                key_of(request.to),
                request.seed,
            ),
        )
    } else if request.from == request.to {
        Some(seq![request.from])
    } else {
        None
    }
}

/// A route between two different tiles starts and ends on walkable ones.
pub proof fn lemma_route_ends_walkable(
    grid: &WalkGrid,
    from: GridPos,
    to: GridPos,
    path: Seq<GridPos>,
)
    requires
        is_route(grid, from, to, path),
        from != to,
    ensures
        grid.walkable(from),
        grid.walkable(to),
{
    assert(step_at(grid, path, 0));
    assert(step_at(grid, path, path.len() - 2));
}

/// Searches a path for `request`.
///
/// The result is a route from `request.from` to `request.to` that no other
/// route outweighs under the request's seed, or `None` exactly when there
/// is no route at all. A request whose ends coincide is answered with the
/// path of that one tile. Without a seed the route found is one of least
/// cost.
pub fn find_path(nav: &Navigation, request: &PathFindingRequest) -> (r: Option<FoundPath>)
    requires
        nav.wf(),
    ensures
        path_of(r) == search_outcome(&nav.grid(), *request),
        r matches Some(found) ==> lightest_route(
            &nav.grid(),
            request.seed,
            request.from,
            request.to,
            found@,
        ),
        r is None <==> unreachable(&nav.grid(), request.from, request.to),
        request.seed is None ==> (r matches Some(found) ==> cheapest_route(
            &nav.grid(),
            request.from,
            request.to,
            found@,
        )),
{
    let from = request.from;
    let to = request.to;
    let seed = request.seed;
    let ghost grid = nav.grid();
    let both_walkable = nav.walk_grid().is_walkable(from) && nav.walk_grid().is_walkable(to);
    if !both_walkable {
        if from.x == to.x && from.y == to.y {
            let mut cells: Vec<GridPos> = Vec::with_capacity(1);
            cells.push(from);
            proof {
                let path = seq![from];
                assert(cells@ == path);
                assert(is_route(&grid, from, to, path));
                assert forall|q: Seq<GridPos>| #[trigger]
                    is_route(&grid, from, to, q) implies route_weight(seed, path) <= route_weight(
                    seed,
                    q,
                ) && route_cost(path) <= route_cost(q) by {
                    lemma_weight_bounds(seed, q);
                    lemma_octile_admissible(&grid, seed, from, to, q);
                }
            }
            return Some(FoundPath(cells));
        }
        proof {
            assert forall|q: Seq<GridPos>| !#[trigger] is_route(&grid, from, to, q) by {
                if is_route(&grid, from, to, q) {
                    lemma_route_ends_walkable(&grid, from, to, q);
                }
            }
        }
        return None;
    }
    proof {
        assert forall|a: GridPos, b: GridPos, w: u32| #[trigger]
            successors_of(&grid, a, seed).contains((key_of(b), w)) <==> is_step(&grid, a, b) && w
                == step_weight(seed, a, b) by {
            lemma_successors_are_steps(&grid, a, seed);
        }
        assert forall|n: GridPos, q: Seq<GridPos>| #[trigger]
            is_route(&grid, n, to, q) implies octile(n, to) <= route_weight(seed, q) by {
            lemma_octile_admissible(&grid, seed, n, to, q);
        }
    }
    let result = astar_route(nav, from, to, seed);
    let r = resolve_search(result);
    proof {
        if r is Some && seed is None {
            lemma_lightest_is_cheapest(&grid, seed, from, to, r->0@);
        }
    }
    r
}

/// Optimality: where the seed perturbs no tile, and so always without a
/// seed, a lightest route is a route of least cost.
pub proof fn lemma_lightest_is_cheapest(
    grid: &WalkGrid,
    seed: Option<u64>,
    from: GridPos,
    to: GridPos,
    path: Seq<GridPos>,
)
    requires
        lightest_route(grid, seed, from, to, path),
        forall|c: GridPos| perturbation_of(seed, c) == 0,
    ensures
        cheapest_route(grid, from, to, path),
{
    assert forall|q: Seq<GridPos>| #[trigger] is_route(grid, from, to, q) implies route_cost(path)
        <= route_cost(q) by {
        lemma_weight_unperturbed(seed, path);
        lemma_weight_unperturbed(seed, q);
    }
}

/// With any seed, a lightest route costs no more than another route plus
/// `MAX_TIE_BREAKER` for each move of that other route.
pub proof fn lemma_lightest_is_near_cheapest(
    grid: &WalkGrid,
    seed: Option<u64>,
    from: GridPos,
    to: GridPos,
    path: Seq<GridPos>,
    other: Seq<GridPos>,
)
    requires
        lightest_route(grid, seed, from, to, path),
        is_route(grid, from, to, other),
    ensures
        route_cost(path) <= route_cost(other) + MAX_TIE_BREAKER * (other.len() - 1),
{
    lemma_weight_bounds(seed, path);
    lemma_weight_bounds(seed, other);
}

/// Determinism: two grids with the same extents and flags give, for the
/// same request, the same outcome.
pub proof fn lemma_search_is_deterministic(
    first: &WalkGrid,
    second: &WalkGrid,
    request: PathFindingRequest,
)
    requires
        first.spec_width() == second.spec_width(),
        first.spec_height() == second.spec_height(),
        first.flags() == second.flags(),
    ensures
        search_outcome(first, request) == search_outcome(second, request),
{
}

/// Cost of the move from `a` to `b`.
pub fn move_cost(a: GridPos, b: GridPos) -> (c: u32)
    ensures
        c == step_cost(a, b),
{
    if a.x == b.x || a.y == b.y {
        STRAIGHT_COST
    } else {
        DIAGONAL_COST
    }
}

/// What the moves along `path` cost together, perturbations left out.
pub fn path_cost(path: &FoundPath) -> (cost: u128)
    ensures
        cost == route_cost(path@),
{
    let cells = &path.0;
    let mut cost: u128 = 0;
    let mut i: usize = 1;
    while i < cells.len()
        invariant
            1 <= i,
            cells@ == path@,
            i <= cells@.len() || cells@.len() == 0,
            cells@.len() >= 1 ==> cost == route_cost(cells@.subrange(0, i as int)),
            cells@.len() == 0 ==> cost == 0,
            cost <= DIAGONAL_COST * i,
        decreases cells@.len() - i,
    {
        assert(cells@.subrange(0, i + 1).drop_last() == cells@.subrange(0, i as int));
        let step: u32 = move_cost(cells[i - 1], cells[i]);
        cost = cost + step as u128;
        i = i + 1;
    }
    assert(cells@.len() >= 1 ==> cells@.subrange(0, cells@.len() as int) == cells@);
    cost
}

} // verus!
