//! The adjacency cache over a walkability grid: for each explored tile the
//! moves that leave it, filled in on first use.

use multimap::MultiMap;
use vstd::prelude::*;

use crate::grid::GridPos;
use crate::grid::WalkGrid;

verus! {

/// Cost of a step along a row or a column.
pub const STRAIGHT_COST: u32 = 100;

/// Cost of a diagonal step.
pub const DIAGONAL_COST: u32 = 140;

/// One edge of the mesh: the tile it leads to and what the step costs.
#[derive(Clone, Copy, Debug, PartialEq, Eq, Structural)]
pub struct Move {
    pub destination: GridPos,
    pub cost: u32,
}

impl Default for Move {
    fn default() -> (m: Move)
        ensures
            m == (Move { destination: GridPos { x: 0, y: 0 }, cost: 0 }),
    {
        Move { destination: GridPos { x: 0, y: 0 }, cost: 0 }
    }
}

/// Cost of a step in direction `d`: the first four directions are straight.
pub open spec fn direction_cost(d: int) -> u32 {
    if d < 4 {
        STRAIGHT_COST
    } else {
        DIAGONAL_COST
    }
}

/// The move from `cell` in direction `d`, if both ends are walkable.
pub open spec fn edge_towards(grid: &WalkGrid, cell: GridPos, d: int) -> Option<Move> {
    match grid.neighbor(cell, d) {
        Some(n) => if grid.walkable(cell) && grid.walkable(n) {
            Some(Move { destination: n, cost: direction_cost(d) })
        } else {
            None
        },
        None => None,
    }
}

/// The moves from `cell` in the first `n` directions, in direction order.
pub open spec fn scan_prefix(grid: &WalkGrid, cell: GridPos, n: nat) -> Seq<Move>
    decreases n,
{
    if n == 0 {
        Seq::empty()
    } else {
        let before = scan_prefix(grid, cell, (n - 1) as nat);
        match edge_towards(grid, cell, n - 1) {
            Some(m) => before.push(m),
            None => before,
        }
    }
}

/// What a fresh look at the grid gives for `cell`: its walkable neighbours
/// with their costs, straight ones first. Empty when `cell` is not walkable.
pub open spec fn scan(grid: &WalkGrid, cell: GridPos) -> Seq<Move> {
    scan_prefix(grid, cell, 8)
}

/// A tile as the key under which the multimap holds its moves.
pub open spec fn key_of(cell: GridPos) -> (u32, u32) {
    (cell.x, cell.y)
}

/// A move as the multimap holds it: column and row of the destination,
/// then the cost.
pub open spec fn entry_of(m: Move) -> (u32, u32, u32) {
    (m.destination.x, m.destination.y, m.cost)
}

/// The move that a stored triple stands for.
pub open spec fn move_of(e: (u32, u32, u32)) -> Move {
    Move { destination: GridPos { x: e.0, y: e.1 }, cost: e.2 }
}

/// The triples of `moves`, in their order.
pub open spec fn entries_of(moves: Seq<Move>) -> Seq<(u32, u32, u32)> {
    Seq::new(moves.len(), |i: int| entry_of(moves[i]))
}

/// The moves of `entries`, in their order.
pub open spec fn moves_of(entries: Seq<(u32, u32, u32)>) -> Seq<Move> {
    Seq::new(entries.len(), |i: int| move_of(entries[i]))
}

/// A tile that is not walkable has no move that leaves it.
pub proof fn lemma_scan_of_blocked(grid: &WalkGrid, cell: GridPos, n: nat)
    requires
        !grid.walkable(cell),
    ensures
        scan_prefix(grid, cell, n) == Seq::<Move>::empty(),
    decreases n,
{
    if n > 0 {
        lemma_scan_of_blocked(grid, cell, (n - 1) as nat);
    }
}

/// `multimap::MultiMap`, made known so that the mesh can hold one. Nothing
/// is said here of what is inside; `mesh_entries` names that.
#[verifier::external_type_specification]
#[verifier::external_body]
#[verifier::reject_recursive_types(K)]
#[verifier::reject_recursive_types(V)]
#[verifier::reject_recursive_types(S)]
pub struct ExMultiMap<K, V, S>(MultiMap<K, V, S>);

/// What a multimap holds: for each key that is present, its values in the
/// order in which they were inserted.
pub uninterp spec fn mesh_entries(m: MultiMap<(u32, u32), (u32, u32, u32)>) -> Map<(u32, u32), Seq<(u32, u32, u32)>>;

/// `MultiMap::new`: a multimap without keys.
#[verifier::external_body]
fn mesh_new() -> (m: MultiMap<(u32, u32), (u32, u32, u32)>)
    ensures
        mesh_entries(m).dom() == Set::<(u32, u32)>::empty(),
{
    MultiMap::new()
}

/// `MultiMap::get_vec`: the values stored under `k`, or `None` when the key
/// is absent.
#[verifier::external_body]
fn mesh_get_vec<'a>(
    m: &'a MultiMap<(u32, u32), (u32, u32, u32)>,
    k: &(u32, u32),
) -> (r: Option<&'a Vec<(u32, u32, u32)>>)
    ensures
        r is Some <==> mesh_entries(*m).contains_key(*k),
        r matches Some(v) ==> v@ == mesh_entries(*m)[*k],
{
    m.get_vec(k)
}

/// `MultiMap::insert`: appends `v` to the values under `k`; an absent key
/// starts with `v` alone. Other keys keep their values.
#[verifier::external_body]
fn mesh_insert(m: &mut MultiMap<(u32, u32), (u32, u32, u32)>, k: (u32, u32), v: (u32, u32, u32))
    ensures
        mesh_entries(*final(m)) == mesh_entries(*old(m)).insert(
            k,
            if mesh_entries(*old(m)).contains_key(k) {
                mesh_entries(*old(m))[k].push(v)
            } else {
                seq![v]
            },
        ),
{
    m.insert(k, v)
}

/// The stored triples as moves.
fn moves_from(entries: &Vec<(u32, u32, u32)>) -> (r: Vec<Move>)
    ensures
        r@ == moves_of(entries@),
{
    let mut r: Vec<Move> = Vec::with_capacity(entries.len());
    let mut i: usize = 0;
    while i < entries.len()
        invariant
            i <= entries@.len(),
            r@ == moves_of(entries@).subrange(0, i as int),
        decreases entries@.len() - i,
    {
        let e = entries[i];
        r.push(Move { destination: GridPos { x: e.0, y: e.1 }, cost: e.2 });
        i = i + 1;
    }
    r
}

/// What is stored for each explored tile.
pub type MeshView = Map<GridPos, Seq<Move>>;

/// Every entry of `mesh` is what a fresh scan of `grid` gives for its tile.
pub open spec fn agrees(mesh: MeshView, grid: &WalkGrid) -> bool {
    forall|c: GridPos| #[trigger] mesh.contains_key(c) ==> mesh[c] == scan(grid, c)
}

/// The mesh after a request for the moves that leave `cell`: a tile that
/// has an entry keeps it, a tile without moves gets none, and any other
/// tile gets what a scan of the grid finds.
pub open spec fn queried(mesh: MeshView, grid: &WalkGrid, cell: GridPos) -> MeshView {
    if mesh.contains_key(cell) || scan(grid, cell).len() == 0 {
        mesh
    } else {
        mesh.insert(cell, scan(grid, cell))
    }
}

/// The mesh after requests for `cells`, one after the other.
pub open spec fn queried_all(mesh: MeshView, grid: &WalkGrid, cells: Seq<GridPos>) -> MeshView
    decreases cells.len(),
{
    if cells.len() == 0 {
        mesh
    } else {
        queried(queried_all(mesh, grid, cells.drop_last()), grid, cells.last())
    }
}

/// The mesh of the whole grid: an entry for every tile that a move leaves.
pub open spec fn whole_mesh(grid: &WalkGrid) -> MeshView {
    Map::new(|c: GridPos| scan(grid, c).len() > 0, |c: GridPos| scan(grid, c))
}

/// The cache never parts from the grid: a mesh that agrees with the grid
/// still agrees with it after any requests, and what it holds for a tile
/// then is what a fresh scan of that tile gives.
pub proof fn lemma_queries_keep_agreement(mesh: MeshView, grid: &WalkGrid, cells: Seq<GridPos>)
    requires
        agrees(mesh, grid),
    ensures
        agrees(queried_all(mesh, grid, cells), grid),
        forall|c: GridPos| #[trigger]
            mesh.contains_key(c) ==> queried_all(mesh, grid, cells).contains_key(c),
    decreases cells.len(),
{
    if cells.len() > 0 {
        lemma_queries_keep_agreement(mesh, grid, cells.drop_last());
    }
}

/// A mesh without entries agrees with every grid.
pub proof fn lemma_empty_mesh_agrees(grid: &WalkGrid)
    ensures
        agrees(Map::empty(), grid),
{
}

/// The whole mesh is what requests for every tile leave behind, and it
/// agrees with the grid.
pub proof fn lemma_whole_mesh_agrees(grid: &WalkGrid)
    ensures
        agrees(whole_mesh(grid), grid),
        forall|c: GridPos| #[trigger] queried(whole_mesh(grid), grid, c) == whole_mesh(grid),
{
}

/// The cache. A tile without an entry has not been explored, or has no move
/// that leaves it.
pub struct NavMesh {
    edges: MultiMap<(u32, u32), (u32, u32, u32)>,
}

impl View for NavMesh {
    type V = MeshView;

    closed spec fn view(&self) -> MeshView {
        Map::new(
            |c: GridPos| mesh_entries(self.edges).contains_key(key_of(c)),
            |c: GridPos| moves_of(mesh_entries(self.edges)[key_of(c)]),
        )
    }
}

impl Default for NavMesh {
    fn default() -> (mesh: NavMesh)
        ensures
            mesh@ == Map::<GridPos, Seq<Move>>::empty(),
    {
        NavMesh::new()
    }
}

impl NavMesh {
    /// Every entry is what a fresh scan of `grid` gives for its tile.
    pub open spec fn agrees_with(&self, grid: &WalkGrid) -> bool {
        agrees(self@, grid)
    }

    /// A mesh with no tile explored.
    pub fn new() -> (mesh: NavMesh)
        ensures
            mesh@ == Map::<GridPos, Seq<Move>>::empty(),
    {
        let mesh = NavMesh { edges: mesh_new() };
        assert(mesh@ =~= Map::<GridPos, Seq<Move>>::empty());
        mesh
    }

    /// Looks at the tiles around an unexplored `cell` and stores each move
    /// that is possible.
    fn explore(&mut self, grid: &WalkGrid, cell: GridPos) -> (found: Vec<Move>)
        requires
            grid.wf(),
            !old(self)@.contains_key(cell),
        ensures
            found@ == scan(grid, cell),
            final(self)@ == queried(old(self)@, grid, cell),
    {
        let mut found: Vec<Move> = Vec::with_capacity(8);
        let ghost before = mesh_entries(self.edges);
        let key = (cell.x, cell.y);
        if grid.is_walkable(cell) {
            let around = grid.neighbor_positions(cell);
            let mut d: usize = 0;
            while d < 8
                invariant
                    d <= 8,
                    grid.wf(),
                    key == key_of(cell),
                    !before.contains_key(key),
                    forall|i: int| 0 <= i < 8 ==> around[i] == grid.neighbor(cell, i),
                    grid.walkable(cell),
                    found@ == scan_prefix(grid, cell, d as nat),
                    mesh_entries(self.edges) == if found@.len() > 0 {
                        before.insert(key, entries_of(found@))
                    } else {
                        before
                    },
                decreases 8 - d,
            {
                if let Some(n) = around[d] {
                    if grid.is_walkable(n) {
                        let cost: u32 = if d < 4 {
                            STRAIGHT_COST
                        } else {
                            DIAGONAL_COST
                        };
                        let ghost earlier = found@;
                        mesh_insert(&mut self.edges, key, (n.x, n.y, cost));
                        found.push(Move { destination: n, cost });
                        assert(entries_of(found@) == if earlier.len() > 0 {
                            entries_of(earlier).push((n.x, n.y, cost))
                        } else {
                            seq![(n.x, n.y, cost)]
                        });
                        assert(mesh_entries(self.edges) == before.insert(key, entries_of(found@)));
                    }
                }
                d = d + 1;
            }
        } else {
            proof {
                lemma_scan_of_blocked(grid, cell, 8);
            }
        }
        proof {
            assert(moves_of(entries_of(found@)) == found@);
            assert forall|c: GridPos| c != cell implies key_of(c) != key by {}
            assert(self@ =~= queried(old(self)@, grid, cell));
        }
        found
    }

    /// The entry of `cell`, if the mesh has one.
    pub fn stored(&self, cell: GridPos) -> (r: Option<Vec<Move>>)
        ensures
            r is Some <==> self@.contains_key(cell),
            r matches Some(moves) ==> moves@ == self@[cell],
    {
        let key = (cell.x, cell.y);
        match mesh_get_vec(&self.edges, &key) {
            Some(cached) => Some(moves_from(cached)),
            None => None,
        }
    }

    /// The moves that leave `current`. The first request for a tile scans
    /// the grid around it and stores the result; later requests read the
    /// stored entry and do not look at the grid.
    pub fn neighbours(&mut self, grid: &WalkGrid, current: GridPos) -> (r: Vec<Move>)
        requires
            grid.wf(),
            old(self).agrees_with(grid),
        ensures
            r@ == scan(grid, current),
            final(self)@ == queried(old(self)@, grid, current),
            final(self).agrees_with(grid),
    {
        let key = (current.x, current.y);
        match mesh_get_vec(&self.edges, &key) {
            Some(cached) => {
                assert(self@.contains_key(current));
                moves_from(cached)
            },
            None => self.explore(grid, current),
        }
    }
}

/// A mesh to be kept as a resource of its own.
pub struct NavMeshResource(pub NavMesh);

/// Whether the sweep of `calculate_new_nav_mesh` has passed `c` when it
/// stands at column `x`, row `y`.
spec fn swept(c: GridPos, x: int, y: int) -> bool {
    c.x < x || (c.x == x && c.y < y)
}

/// The mesh of the whole grid, computed at once.
pub fn calculate_new_nav_mesh(grid: &WalkGrid) -> (mesh: NavMesh)
    requires
        grid.wf(),
    ensures
        mesh@ == whole_mesh(grid),
        mesh.agrees_with(grid),
{
    let mut mesh = NavMesh::new();
    let width: u32 = grid.width();
    let height: u32 = grid.height();
    let mut x: u32 = 0;
    while x < width
        invariant
            grid.wf(),
            width == grid.spec_width(),
            height == grid.spec_height(),
            x <= width,
            mesh.agrees_with(grid),
            forall|c: GridPos| #[trigger]
                mesh@.contains_key(c) <==> swept(c, x as int, 0) && grid.in_bounds(c) && scan(
                    grid,
                    c,
                ).len() > 0,
        decreases width - x,
    {
        let mut y: u32 = 0;
        while y < height
            invariant
                grid.wf(),
                width == grid.spec_width(),
                height == grid.spec_height(),
                x < width,
                y <= height,
                mesh.agrees_with(grid),
                forall|c: GridPos| #[trigger]
                    mesh@.contains_key(c) <==> swept(c, x as int, y as int) && grid.in_bounds(c)
                        && scan(grid, c).len() > 0,
            decreases height - y,
        {
            let cell = GridPos { x, y };
            assert(!mesh@.contains_key(cell));
            let _ = mesh.explore(grid, cell);
            y = y + 1;
        }
        x = x + 1;
    }
    proof {
        assert forall|c: GridPos| #[trigger] mesh@.contains_key(c) <==> scan(grid, c).len()
            > 0 by {
            if !grid.walkable(c) {
                lemma_scan_of_blocked(grid, c, 8);
            }
        }
        assert(mesh@ =~= whole_mesh(grid));
    }
    mesh
}

/// The computations of a whole new mesh that are under way: the one that
/// is being waited for, and at most one that comes after it. `T` is the
/// handle of such a computation.
pub struct NavMeshCalculationQueue<T> {
    current_task: Option<T>,
    next_task: Option<T>,
}

impl<T> Default for NavMeshCalculationQueue<T> {
    fn default() -> (queue: Self)
        ensures
            queue.current() is None,
            queue.next() is None,
    {
        NavMeshCalculationQueue::new()
    }
}

impl<T> NavMeshCalculationQueue<T> {
    /// The computation that is being waited for.
    pub closed spec fn current(&self) -> Option<T> {
        self.current_task
    }

    /// The computation that takes its place when it is done.
    pub closed spec fn next(&self) -> Option<T> {
        self.next_task
    }

    /// A queue with no computation under way.
    pub fn new() -> (queue: Self)
        ensures
            queue.current() is None,
            queue.next() is None,
    {
        NavMeshCalculationQueue { current_task: None, next_task: None }
    }

    /// The place of the current computation, to look at it or to poll it.
    pub fn peek(&mut self) -> (task: &mut Option<T>)
        ensures
            *task == old(self).current(),
            final(self).current() == *final(task),
            final(self).next() == old(self).next(),
    {
        &mut self.current_task
    }

    /// Adds a computation: as the current one where there is none, else as
    /// the one that comes next, in place of any that waited there.
    pub fn add(&mut self, task: T)
        ensures
            final(self).current() == if old(self).current() is None {
                Some(task)
            } else {
                old(self).current()
            },
            final(self).next() == if old(self).current() is None {
                old(self).next()
            } else {
                Some(task)
            },
    {
        if self.current_task.is_none() {
            self.current_task = Some(task);
        } else {
            self.next_task = Some(task);
        }
    }

    /// Drops the current computation; the next one becomes current.
    pub fn pop(&mut self)
        ensures
            final(self).current() == old(self).next(),
            final(self).next() is None,
    {
        std::mem::swap(&mut self.next_task, &mut self.current_task);
        self.next_task = None;
    }
}

} // verus!
