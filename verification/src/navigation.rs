//! The shared navigation state: a grid that does not change and, behind a
//! lock, the mesh that searches fill in as they go.

use vstd::prelude::*;
use vstd::rwlock::RwLock;
use vstd::rwlock::RwLockPredicate;

use crate::grid::GridPos;
use crate::grid::WalkGrid;
use crate::nav_mesh::scan;
use crate::nav_mesh::Move;
use crate::nav_mesh::NavMesh;
use crate::nav_mesh::NavMeshCalculationQueue;

verus! {

/// What the lock admits: a mesh that agrees with `grid`.
pub struct MeshOf {
    pub grid: WalkGrid,
}

impl RwLockPredicate<NavMesh> for MeshOf {
    open spec fn inv(self, mesh: NavMesh) -> bool {
        mesh.agrees_with(&self.grid)
    }
}

/// A grid together with the mesh cached for it. Any number of searches may
/// hold a shared reference; each look-up or insertion is one critical
/// section of the lock.
pub struct Navigation {
    grid: WalkGrid,
    mesh: RwLock<NavMesh, MeshOf>,
}

impl Navigation {
    /// The grid that the mesh is cached for.
    pub closed spec fn grid(&self) -> WalkGrid {
        self.grid
    }

    /// The lock admits the meshes that agree with this grid, and no others.
    pub closed spec fn guards_grid(&self) -> bool {
        self.mesh.pred().grid == self.grid
    }

    /// The grid is well formed and the lock is that of this grid.
    pub open spec fn wf(&self) -> bool {
        &&& self.grid().wf()
        &&& self.guards_grid()
    }

    /// Navigation over `grid`, with nothing explored yet.
    pub fn new(grid: WalkGrid) -> (nav: Navigation)
        requires
            grid.wf(),
        ensures
            nav.wf(),
            nav.grid() == grid,
    {
        let mesh = NavMesh::new();
        let ghost pred = MeshOf { grid };
        Navigation { mesh: RwLock::new(mesh, Ghost(pred)), grid }
    }

    /// Navigation over `grid` that starts from a mesh computed before.
    pub fn with_mesh(grid: WalkGrid, mesh: NavMesh) -> (nav: Navigation)
        requires
            grid.wf(),
            mesh.agrees_with(&grid),
        ensures
            nav.wf(),
            nav.grid() == grid,
    {
        let ghost pred = MeshOf { grid };
        Navigation { mesh: RwLock::new(mesh, Ghost(pred)), grid }
    }

    /// The grid, for reading.
    pub fn walk_grid(&self) -> (g: &WalkGrid)
        ensures
            *g == self.grid(),
    {
        &self.grid
    }

    /// The moves that leave `current`, from the mesh where it has them and
    /// from the grid where it has not; whatever other searches did to the
    /// mesh meanwhile, the answer is that of a fresh scan.
    pub fn neighbours(&self, current: GridPos) -> (r: Vec<Move>)
        requires
            self.wf(),
        ensures
            r@ == scan(&self.grid(), current),
    {
        let (mut mesh, handle) = self.mesh.acquire_write();
        let r = mesh.neighbours(&self.grid, current);
        handle.release_write(mesh);
        r
    }

    /// Puts `mesh` in the place of the mesh that was cached so far.
    pub fn replace_mesh(&self, mesh: NavMesh)
        requires
            self.wf(),
            mesh.agrees_with(&self.grid()),
    {
        let (_, handle) = self.mesh.acquire_write();
        handle.release_write(mesh);
    }

    /// What the mesh holds for `cell` at this moment: `None` while it has no
    /// entry, else the stored moves, which are those of a fresh scan.
    pub fn cached(&self, cell: GridPos) -> (r: Option<Vec<Move>>)
        requires
            self.wf(),
        ensures
            r matches Some(moves) ==> moves@ == scan(&self.grid(), cell),
    {
        let handle = self.mesh.acquire_read();
        let r = handle.borrow().stored(cell);
        proof {
            assert(handle.rwlock().inv(handle.view()));
            assert(r is Some ==> handle.view()@.contains_key(cell));
        }
        handle.release_read();
        r
    }
}

/// One look at the computation of a whole new mesh. `finished` is `None`
/// while the current computation still runs, and nothing changes then.
/// Else it is the mesh that was computed: it takes the place of the cached
/// one, and the computation leaves the queue.
pub fn handle_new_nav_mesh<T>(
    navigation: &Navigation,
    pending_queue: &mut NavMeshCalculationQueue<T>,
    finished: Option<NavMesh>,
)
    requires
        navigation.wf(),
        finished matches Some(mesh) ==> mesh.agrees_with(&navigation.grid()),
    ensures
        final(pending_queue).current() == if finished is Some {
            old(pending_queue).next()
        } else {
            old(pending_queue).current()
        },
        final(pending_queue).next() == if finished is Some {
            None
        } else {
            old(pending_queue).next()
        },
{
    match finished {
        None => {},
        Some(calculated_nav_mesh) => {
            navigation.replace_mesh(calculated_nav_mesh);
            pending_queue.pop();
        },
    }
}

} // verus!
