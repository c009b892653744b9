//! Routes over the grid, what they cost, and why the octile distance never
//! overestimates them.

use vstd::prelude::*;

use crate::grid::dir_dx;
use crate::grid::dir_dy;
use crate::grid::GridPos;
use crate::grid::WalkGrid;
use crate::nav_mesh::edge_towards;
use crate::nav_mesh::scan;
use crate::nav_mesh::scan_prefix;
use crate::nav_mesh::Move;
use crate::nav_mesh::DIAGONAL_COST;
use crate::nav_mesh::STRAIGHT_COST;
use crate::tie_breaker::lemma_perturbation_bound;
use crate::tie_breaker::perturbation_of;
use crate::tie_breaker::MAX_TIE_BREAKER;

verus! {

/// Distance between two coordinates.
pub open spec fn gap(a: u32, b: u32) -> int {
    if a >= b {
        a - b
    } else {
        b - a
    }
}

/// Two different tiles that touch, along a side or at a corner.
pub open spec fn adjacent(a: GridPos, b: GridPos) -> bool {
    a != b && gap(a.x, b.x) <= 1 && gap(a.y, b.y) <= 1
}

/// An agent can go from `a` to `b` in one move.
pub open spec fn is_step(grid: &WalkGrid, a: GridPos, b: GridPos) -> bool {
    grid.walkable(a) && grid.walkable(b) && adjacent(a, b)
}

/// Cost of the move between two adjacent tiles.
pub open spec fn step_cost(a: GridPos, b: GridPos) -> int {
    if a.x == b.x || a.y == b.y {
        STRAIGHT_COST as int
    } else {
        DIAGONAL_COST as int
    }
}

/// Weight of that move as a search with `seed` sees it.
pub open spec fn step_weight(seed: Option<u64>, a: GridPos, b: GridPos) -> int {
    step_cost(a, b) + perturbation_of(seed, b)
}

/// The move from place `i` of `path` to the next is a step.
pub open spec fn step_at(grid: &WalkGrid, path: Seq<GridPos>, i: int) -> bool {
    is_step(grid, path[i], path[i + 1])
}

/// `path` leads from `from` to `to`, both included, one move at a time.
pub open spec fn is_route(grid: &WalkGrid, from: GridPos, to: GridPos, path: Seq<GridPos>) -> bool {
    &&& path.len() >= 1
    &&& path[0] == from
    &&& path[path.len() - 1] == to
    &&& forall|i: int| 0 <= i < path.len() - 1 ==> #[trigger] step_at(grid, path, i)
}

/// Sum of the costs of the moves along `path`.
pub open spec fn route_cost(path: Seq<GridPos>) -> int
    decreases path.len(),
{
    if path.len() <= 1 {
        0
    } else {
        route_cost(path.drop_last()) + step_cost(path[path.len() - 2], path[path.len() - 1])
    }
}

/// Sum of the weights of the moves along `path` for a search with `seed`.
pub open spec fn route_weight(seed: Option<u64>, path: Seq<GridPos>) -> int
    decreases path.len(),
{
    if path.len() <= 1 {
        0
    } else {
        route_weight(seed, path.drop_last()) + step_weight(
            seed,
            path[path.len() - 2],
            path[path.len() - 1],
        )
    }
}

/// The octile distance: the cost of the cheapest route between two tiles on
/// a map without obstacles.
pub open spec fn octile(a: GridPos, b: GridPos) -> int {
    let dx = gap(a.x, b.x);
    let dy = gap(a.y, b.y);
    if dx >= dy {
        STRAIGHT_COST * dx + (DIAGONAL_COST - STRAIGHT_COST) * dy
    } else {
        STRAIGHT_COST * dy + (DIAGONAL_COST - STRAIGHT_COST) * dx
    }
}

/// The direction in which `b` lies from an adjacent `a`.
pub open spec fn direction_to(a: GridPos, b: GridPos) -> int {
    if b.x == a.x {
        if b.y > a.y {
            0
        } else {
            1
        }
    } else if b.x < a.x {
        if b.y == a.y {
            2
        } else if b.y > a.y {
            4
        } else {
            6
        }
    } else {
        if b.y == a.y {
            3
        } else if b.y > a.y {
            5
        } else {
            7
        }
    }
}

proof fn lemma_scan_prefix_members(grid: &WalkGrid, cell: GridPos, n: nat)
    ensures
        forall|m: Move| #[trigger]
            scan_prefix(grid, cell, n).contains(m) <==> exists|d: int|
                0 <= d < n && #[trigger] edge_towards(grid, cell, d) == Some(m),
    decreases n,
{
    let now = scan_prefix(grid, cell, n);
    if n == 0 {
        assert forall|m: Move| !(#[trigger] now.contains(m)) by {}
    } else {
        let before = scan_prefix(grid, cell, (n - 1) as nat);
        lemma_scan_prefix_members(grid, cell, (n - 1) as nat);
        assert forall|m: Move| #[trigger]
            now.contains(m) <==> exists|d: int|
                0 <= d < n && #[trigger] edge_towards(grid, cell, d) == Some(m) by {
            if now.contains(m) {
                let i = choose|i: int| 0 <= i < now.len() && now[i] == m;
                if i < before.len() {
                    assert(before[i] == m);
                    assert(before.contains(m));
                    let d = choose|d: int|
                        0 <= d < n - 1 && #[trigger] edge_towards(grid, cell, d) == Some(m);
                    assert(0 <= d < n && edge_towards(grid, cell, d) == Some(m));
                } else {
                    assert(edge_towards(grid, cell, n - 1) == Some(m));
                }
            }
            if exists|d: int| 0 <= d < n && #[trigger] edge_towards(grid, cell, d) == Some(m) {
                let d = choose|d: int|
                    0 <= d < n && #[trigger] edge_towards(grid, cell, d) == Some(m);
                if d < n - 1 {
                    assert(before.contains(m));
                    let i = choose|i: int| 0 <= i < before.len() && before[i] == m;
                    assert(now[i] == m);
                } else {
                    assert(now[before.len() as int] == m);
                }
            }
        }
    }
}

/// A fresh scan of `cell` lists exactly the moves that are steps from it,
/// each with the cost of that step.
pub proof fn lemma_scan_is_steps(grid: &WalkGrid, cell: GridPos)
    requires
        grid.wf(),
    ensures
        forall|m: Move| #[trigger]
            scan(grid, cell).contains(m) <==> is_step(grid, cell, m.destination) && m.cost
                == step_cost(cell, m.destination),
{
    lemma_scan_prefix_members(grid, cell, 8);
    assert forall|m: Move| #[trigger]
        scan(grid, cell).contains(m) <==> is_step(grid, cell, m.destination) && m.cost
            == step_cost(cell, m.destination) by {
        if scan(grid, cell).contains(m) {
            let d = choose|d: int| 0 <= d < 8 && #[trigger] edge_towards(grid, cell, d) == Some(m);
            assert(grid.neighbor(cell, d) == Some(m.destination));
        }
        if is_step(grid, cell, m.destination) && m.cost == step_cost(cell, m.destination) {
            let d = direction_to(cell, m.destination);
            assert(cell.x + dir_dx(d) == m.destination.x);
            assert(cell.y + dir_dy(d) == m.destination.y);
            assert(grid.neighbor(cell, d) == Some(m.destination));
            assert(edge_towards(grid, cell, d) == Some(m));
        }
    }
}

/// One move changes the octile distance to any goal by no more than the
/// move costs.
pub proof fn lemma_octile_consistent(a: GridPos, b: GridPos, goal: GridPos)
    requires
        adjacent(a, b),
    ensures
        octile(a, goal) <= step_cost(a, b) + octile(b, goal),
{
}

/// A route without its last tile is a route to the tile before.
pub proof fn lemma_route_drop_last(grid: &WalkGrid, from: GridPos, to: GridPos, path: Seq<GridPos>)
    requires
        is_route(grid, from, to, path),
        path.len() >= 2,
    ensures
        is_route(grid, from, path[path.len() - 2], path.drop_last()),
        is_step(grid, path[path.len() - 2], to),
{
    let shorter = path.drop_last();
    assert forall|i: int| 0 <= i < shorter.len() - 1 implies #[trigger] step_at(
        grid,
        shorter,
        i,
    ) by {
        assert(step_at(grid, path, i));
    }
    assert(step_at(grid, path, path.len() - 2));
}

/// The octile distance from the start of a route to any goal is at most
/// the cost of the route plus the octile distance from its end.
pub proof fn lemma_octile_along_route(
    grid: &WalkGrid,
    from: GridPos,
    to: GridPos,
    path: Seq<GridPos>,
    goal: GridPos,
)
    requires
        is_route(grid, from, to, path),
    ensures
        octile(from, goal) <= route_cost(path) + octile(to, goal),
    decreases path.len(),
{
    if path.len() >= 2 {
        let before = path[path.len() - 2];
        lemma_route_drop_last(grid, from, to, path);
        lemma_octile_along_route(grid, from, before, path.drop_last(), goal);
        lemma_octile_consistent(before, to, goal);
    }
}

/// The weight of a route is its cost plus at most `MAX_TIE_BREAKER` for
/// each move.
pub proof fn lemma_weight_bounds(seed: Option<u64>, path: Seq<GridPos>)
    ensures
        route_cost(path) <= route_weight(seed, path),
        path.len() >= 1 ==> route_weight(seed, path) <= route_cost(path) + MAX_TIE_BREAKER * (
        path.len() - 1),
        path.len() == 0 ==> route_weight(seed, path) == 0,
    decreases path.len(),
{
    if path.len() >= 2 {
        lemma_weight_bounds(seed, path.drop_last());
        lemma_perturbation_bound(seed, path[path.len() - 1]);
    }
}

/// Where the seed perturbs no tile, a route weighs what it costs.
pub proof fn lemma_weight_unperturbed(seed: Option<u64>, path: Seq<GridPos>)
    requires
        forall|c: GridPos| perturbation_of(seed, c) == 0,
    ensures
        route_weight(seed, path) == route_cost(path),
    decreases path.len(),
{
    if path.len() >= 2 {
        lemma_weight_unperturbed(seed, path.drop_last());
    }
}

/// The octile distance never overestimates: every route from `from` to
/// `goal` costs, and weighs, at least that much.
pub proof fn lemma_octile_admissible(
    grid: &WalkGrid,
    seed: Option<u64>,
    from: GridPos,
    goal: GridPos,
    path: Seq<GridPos>,
)
    requires
        is_route(grid, from, goal, path),
    ensures
        octile(from, goal) <= route_cost(path),
        octile(from, goal) <= route_weight(seed, path),
{
    lemma_octile_along_route(grid, from, goal, path, goal);
    lemma_weight_bounds(seed, path);
}

} // verus!
