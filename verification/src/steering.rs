//! From tiles to the world and back, and the steering target that a found
//! path becomes. World coordinates are whole world units; a tile is
//! `TILE_SIZE` of them wide and its centre is what an agent steers for.

use vstd::prelude::*;

use crate::find::FoundPath;
use crate::grid::GridPos;
use crate::grid::TILE_SIZE;

verus! {

/// A point of the world, in world units.
#[derive(Clone, Copy, Debug, PartialEq, Eq, Structural)]
pub struct WorldPoint {
    pub x: i64,
    pub y: i64,
}

/// Corridor half-width of a path that comes from a search.
pub const PATH_WIDTH: u32 = 0;

/// Lookahead of a path that comes from a search.
pub const LOOKAHEAD: u32 = 10;

/// The column, or row, of the tile that holds the world coordinate `w`.
/// Left of the origin there is no tile: the coordinate counts as `0` there,
/// and as the last column where it lies beyond it.
pub open spec fn tile_coordinate(w: i64) -> u32 {
    if w < 0 {
        0
    } else if (w as int) / (TILE_SIZE as int) > u32::MAX {
        u32::MAX
    } else {
        ((w as int) / (TILE_SIZE as int)) as u32
    }
}

/// The world coordinate of the middle of column, or row, `t`.
pub open spec fn centre_coordinate(t: u32) -> i64 {
    (t * TILE_SIZE + TILE_SIZE / 2) as i64
}

/// The centre of the tile at `position`.
pub open spec fn tile_centre(position: GridPos) -> WorldPoint {
    WorldPoint { x: centre_coordinate(position.x), y: centre_coordinate(position.y) }
}

/// The centres of the tiles of `cells`, in their order.
pub open spec fn centres(cells: Seq<GridPos>) -> Seq<WorldPoint> {
    Seq::new(cells.len(), |i: int| tile_centre(cells[i]))
}

fn coordinate_to_tile(w: i64) -> (t: u32)
    ensures
        t == tile_coordinate(w),
{
    if w < 0 {
        0
    } else {
        let tile: i64 = w / 16;
        if tile > 0xffff_ffff {
            u32::MAX
        } else {
            tile as u32
        }
    }
}

/// The tile that holds `point`.
pub fn world2d_to_grid(point: &WorldPoint) -> (tile: GridPos)
    ensures
        tile.x == tile_coordinate(point.x),
        tile.y == tile_coordinate(point.y),
{
    GridPos { x: coordinate_to_tile(point.x), y: coordinate_to_tile(point.y) }
}

/// The centre of the tile at `position`.
pub fn grid_to_world2d(position: &GridPos) -> (point: WorldPoint)
    ensures
        point == tile_centre(*position),
        point.x == TILE_SIZE * position.x + TILE_SIZE / 2,
        point.y == TILE_SIZE * position.y + TILE_SIZE / 2,
{
    let x: i64 = (position.x as i64) * 16 + 8;
    let y: i64 = (position.y as i64) * 16 + 8;
    WorldPoint { x, y }
}

/// The centre of a tile lies in that tile.
pub proof fn lemma_centre_lies_in_its_tile(position: GridPos)
    ensures
        tile_coordinate(tile_centre(position).x) == position.x,
        tile_coordinate(tile_centre(position).y) == position.y,
{
}

/// A polyline for an agent to follow: at least two points, the half-width
/// of the corridor around it, and how far ahead the agent looks.
pub struct FollowPath {
    path: Vec<WorldPoint>,
    path_width: u32,
    lookahead: u32,
}

impl FollowPath {
    #[verifier::type_invariant]
    spec fn has_a_segment(self) -> bool {
        self.path@.len() >= 2
    }

    /// The points of the polyline.
    pub closed spec fn points(&self) -> Seq<WorldPoint> {
        self.path@
    }

    /// Half the width of the corridor.
    pub closed spec fn spec_path_width(&self) -> u32 {
        self.path_width
    }

    /// How far ahead the agent looks.
    pub closed spec fn spec_lookahead(&self) -> u32 {
        self.lookahead
    }

    /// A polyline through `path`, which must hold one segment at least.
    pub fn new(path: Vec<WorldPoint>, path_width: u32, lookahead: u32) -> (follow: FollowPath)
        requires
            path@.len() >= 2,
        ensures
            follow.points() == path@,
            follow.spec_path_width() == path_width,
            follow.spec_lookahead() == lookahead,
    {
        FollowPath { path, path_width, lookahead }
    }

    /// The points of the polyline, two at least.
    pub fn path(&self) -> (points: &Vec<WorldPoint>)
        ensures
            points@ == self.points(),
            points@.len() >= 2,
    {
        proof {
            use_type_invariant(self);
        }
        &self.path
    }

    /// Half the width of the corridor.
    pub fn path_width(&self) -> (w: u32)
        ensures
            w == self.spec_path_width(),
    {
        self.path_width
    }

    /// How far ahead the agent looks.
    pub fn lookahead(&self) -> (l: u32)
        ensures
            l == self.spec_lookahead(),
    {
        self.lookahead
    }

    /// Number of segments, which is never zero.
    pub fn segments(&self) -> (n: usize)
        ensures
            n == self.points().len() - 1,
            n >= 1,
    {
        proof {
            use_type_invariant(self);
        }
        self.path.len() - 1
    }
}

/// The steering target for a found path: the polyline through the centres
/// of its tiles, with the corridor and lookahead of searched paths. A path
/// of a single tile has no segment and cannot be followed.
pub fn transform_path(found: &FoundPath) -> (follow: FollowPath)
    requires
        found@.len() >= 2,
    ensures
        follow.points() == centres(found@),
        follow.spec_path_width() == PATH_WIDTH,
        follow.spec_lookahead() == LOOKAHEAD,
{
    let cells = &found.0;
    let mut path: Vec<WorldPoint> = Vec::with_capacity(cells.len());
    let mut i: usize = 0;
    while i < cells.len()
        invariant
            i <= cells@.len(),
            cells@ == found@,
            path@ == centres(found@).subrange(0, i as int),
        decreases cells@.len() - i,
    {
        path.push(grid_to_world2d(&cells[i]));
        i = i + 1;
    }
    FollowPath::new(path, PATH_WIDTH, LOOKAHEAD)
}

/// The key of the distance that the search for the closest point starts
/// from. Distances come as keys: unsigned numbers that stand in the order
/// of the distances they are taken from. For a distance held as a
/// single-precision number, which is never negative, its bit pattern is
/// such a key, and `FARTHEST` is the key of the largest finite one.
pub const FARTHEST: u32 = 0x7f7f_ffff;

/// The key that candidate `i` is held against to see whether the distance
/// has begun to grow: the key before it, and `FARTHEST` for the first.
pub open spec fn key_before(keys: Seq<u32>, i: int) -> u32 {
    if i == 0 {
        FARTHEST
    } else {
        keys[i - 1]
    }
}

/// The distance grows somewhere along `keys`.
pub open spec fn has_grown(keys: Seq<u32>) -> bool {
    exists|i: int| 0 <= i < keys.len() && key_before(keys, i) < #[trigger] keys[i]
}

/// `j` is the first place in `keys` that holds their least key.
pub open spec fn is_first_least(keys: Seq<u32>, j: int) -> bool {
    &&& 0 <= j < keys.len()
    &&& forall|i: int| 0 <= i < j ==> #[trigger] keys[i] > keys[j]
    &&& forall|i: int| j <= i < keys.len() ==> #[trigger] keys[i] >= keys[j]
}

/// The walk along the segments of a path in search of the point closest
/// to an agent. Each segment offers its closest point with the distance to
/// it; the walk keeps the first of the closest ones and ends as soon as a
/// segment lies farther away than the one before it. `T` is the point.
pub struct ClosestPoint<T> {
    closest_distance: u32,
    last_distance: u32,
    closest_point: Option<T>,
    closest_segment: usize,
    seen: usize,
    offered: Ghost<Seq<T>>,
    keys: Ghost<Seq<u32>>,
}

impl<T> ClosestPoint<T> {
    /// The points that were offered so far.
    pub closed spec fn offered(&self) -> Seq<T> {
        self.offered@
    }

    /// The keys of their distances.
    pub closed spec fn keys(&self) -> Seq<u32> {
        self.keys@
    }

    /// The point that the walk holds to be the closest.
    pub closed spec fn closest(&self) -> Option<T> {
        self.closest_point
    }

    /// The segment that offered it.
    pub closed spec fn segment(&self) -> int {
        self.closest_segment as int
    }

    /// The walk holds what `lemma_closest` says of it.
    pub closed spec fn wf(&self) -> bool {
        &&& self.offered@.len() == self.keys@.len()
        &&& self.keys@.len() == self.seen
        &&& self.last_distance == key_before(self.keys@, self.keys@.len() as int)
        &&& match self.closest_point {
            Some(point) => {
                &&& is_first_least(self.keys@, self.closest_segment as int)
                &&& self.keys@[self.closest_segment as int] < FARTHEST
                &&& self.closest_distance == self.keys@[self.closest_segment as int]
                &&& point == self.offered@[self.closest_segment as int]
            },
            None => {
                &&& self.closest_distance == FARTHEST
                &&& forall|i: int| 0 <= i < self.keys@.len() ==> #[trigger] self.keys@[i] >= FARTHEST
            },
        }
    }

    /// What `wf` says of the closest point, for those who cannot see into
    /// the walk: it is the first of the offered points with the least key,
    /// and there is none while no key lies below `FARTHEST`.
    pub proof fn lemma_closest(&self)
        requires
            self.wf(),
        ensures
            self.offered().len() == self.keys().len(),
            self.closest() matches Some(point) ==> {
                &&& is_first_least(self.keys(), self.segment())
                &&& self.keys()[self.segment()] < FARTHEST
                &&& point == self.offered()[self.segment()]
            },
            self.closest() is None ==> forall|i: int|
                0 <= i < self.keys().len() ==> #[trigger] self.keys()[i] >= FARTHEST,
    {
    }

    /// A walk that has seen no segment.
    pub fn new() -> (walk: Self)
        ensures
            walk.wf(),
            walk.offered() == Seq::<T>::empty(),
            walk.keys() == Seq::<u32>::empty(),
            walk.closest() is None,
    {
        ClosestPoint {
            closest_distance: FARTHEST,
            last_distance: FARTHEST,
            closest_point: None,
            closest_segment: 0,
            seen: 0,
            offered: Ghost(Seq::empty()),
            keys: Ghost(Seq::empty()),
        }
    }

    /// Offers the closest point of the next segment, with the key of its
    /// distance. The result says whether the walk goes on: it ends where
    /// this segment lies farther away than the one before it.
    pub fn consider(&mut self, closest: T, distance: u32) -> (go_on: bool)
        requires
            old(self).wf(),
            old(self).keys().len() < usize::MAX,
        ensures
            final(self).wf(),
            final(self).offered() == old(self).offered().push(closest),
            final(self).keys() == old(self).keys().push(distance),
            go_on == !(key_before(final(self).keys(), old(self).keys().len() as int) < distance),
            go_on && !has_grown(old(self).keys()) ==> !has_grown(final(self).keys()),
            !go_on ==> has_grown(final(self).keys()),
    {
        let ghost n = self.keys@.len() as int;
        let ghost before = self.keys@;
        proof {
            self.offered = Ghost(self.offered@.push(closest));
            self.keys = Ghost(self.keys@.push(distance));
        }
        let stop: bool = self.last_distance < distance;
        if distance < self.closest_distance {
            self.closest_distance = distance;
            self.closest_point = Some(closest);
            self.closest_segment = self.seen;
        }
        self.last_distance = distance;
        self.seen = self.seen + 1;
        proof {
            assert(self.keys@[n] == distance);
            assert forall|i: int| 0 <= i < n implies #[trigger] self.keys@[i] == before[i] by {}
            if !stop && !has_grown(before) {
                assert forall|i: int| 0 <= i < self.keys@.len() implies !(key_before(self.keys@, i)
                    < #[trigger] self.keys@[i]) by {
                    if i < n {
                        assert(!(key_before(before, i) < before[i]));
                    }
                }
            }
            if stop {
                assert(key_before(self.keys@, n) < self.keys@[n]);
            }
        }
        !stop
    }

    /// The closest point that the walk has found: the first of the offered
    /// points with the least key, or `None` where no key lay below
    /// `FARTHEST`.
    pub fn into_point(self) -> (point: Option<T>)
        requires
            self.wf(),
        ensures
            point == self.closest(),
            point matches Some(p) ==> {
                &&& is_first_least(self.keys(), self.segment())
                &&& self.keys()[self.segment()] < FARTHEST
                &&& p == self.offered()[self.segment()]
            },
            point is None ==> forall|i: int|
                0 <= i < self.keys().len() ==> #[trigger] self.keys()[i] >= FARTHEST,
    {
        self.closest_point
    }
}

/// The wish of an agent to steer for `target`.
#[derive(Clone, Copy, Debug, PartialEq, Eq, Structural)]
pub struct Seek<T> {
    pub target: T,
}

/// Whether an agent is on its path: the point it is about to reach lies
/// no farther from the path than the corridor is wide. Both distances come
/// as keys.
pub fn on_path(path_width: u32, distance: u32) -> (on: bool)
    ensures
        on == (distance <= path_width),
{
    distance <= path_width
}

/// What following its path asks of an agent in this tick. On the path it
/// asks nothing, and a wish to seek that the agent had is to be dropped;
/// off the path the agent is to seek the closest point of the path.
pub fn follow_path<T>(path_width: u32, closest_point: T, distance: u32) -> (seek: Option<Seek<T>>)
    ensures
        seek == if distance <= path_width {
            None
        } else {
            Some(Seek { target: closest_point })
        },
{
    if on_path(path_width, distance) {
        None
    } else {
        Some(Seek { target: closest_point })
    }
}

} // verus!
