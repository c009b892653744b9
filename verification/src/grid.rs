//! Grid coordinates and the walkability grid.

use vstd::prelude::*;

verus! {

/// Largest side of a map, in tiles.
pub const MAP_SIZE: u32 = 255;

/// Side of one tile, in world units.
pub const TILE_SIZE: u32 = 16;

/// Address of a tile: column `x`, row `y`, origin at the bottom left.
#[derive(Clone, Copy, Debug, PartialEq, Eq, Hash, Structural)]
pub struct GridPos {
    pub x: u32,
    pub y: u32,
}

/// Column offset of direction `d`, where the eight directions are numbered
/// north, south, west, east, north-west, north-east, south-west, south-east.
pub open spec fn dir_dx(d: int) -> int {
    if d == 2 || d == 4 || d == 6 {
        -1
    } else if d == 3 || d == 5 || d == 7 {
        1
    } else {
        0
    }
}

/// Row offset of direction `d`; north is towards larger `y`.
pub open spec fn dir_dy(d: int) -> int {
    if d == 0 || d == 4 || d == 5 {
        1
    } else if d == 1 || d == 6 || d == 7 {
        -1
    } else {
        0
    }
}

/// A rectangular map of tiles, each walkable or not. Every cell inside the
/// extents has a flag; nothing outside them is walkable.
#[derive(Clone, Debug)]
pub struct WalkGrid {
    width: u32,
    height: u32,
    cells: Vec<bool>,
}

impl WalkGrid {
    /// Number of columns.
    pub closed spec fn spec_width(&self) -> nat {
        self.width as nat
    }

    /// Number of rows.
    pub closed spec fn spec_height(&self) -> nat {
        self.height as nat
    }

    /// The flags, row by row from the bottom, each row from the left.
    pub closed spec fn flags(&self) -> Seq<bool> {
        self.cells@
    }

    /// No side is longer than `MAP_SIZE`, and there is one flag for each
    /// cell.
    pub open spec fn wf(&self) -> bool {
        &&& self.spec_width() <= MAP_SIZE
        &&& self.spec_height() <= MAP_SIZE
        &&& self.flags().len() == self.spec_width() * self.spec_height()
    }

    /// `p` lies inside the extents.
    pub open spec fn in_bounds(&self, p: GridPos) -> bool {
        p.x < self.spec_width() && p.y < self.spec_height()
    }

    /// `p` is a tile of the map that agents can walk on.
    pub open spec fn walkable(&self, p: GridPos) -> bool {
        self.in_bounds(p) && self.flags()[p.y * self.spec_width() + p.x]
    }

    /// The tile next to `p` in direction `d`, unless that leaves the map.
    pub open spec fn neighbor(&self, p: GridPos, d: int) -> Option<GridPos> {
        let x = p.x + dir_dx(d);
        let y = p.y + dir_dy(d);
        if 0 <= x < self.spec_width() && 0 <= y < self.spec_height() {
            Some(GridPos { x: x as u32, y: y as u32 })
        } else {
            None
        }
    }

    /// A map of the given extents with no walkable tile, or `None` when a
    /// side is longer than `MAP_SIZE`.
    pub fn new(width: u32, height: u32) -> (r: Option<WalkGrid>)
        ensures
            r is Some <==> width <= MAP_SIZE && height <= MAP_SIZE,
            r matches Some(g) ==> {
                &&& g.wf()
                &&& g.spec_width() == width
                &&& g.spec_height() == height
                &&& forall|p: GridPos| !g.walkable(p)
            },
    {
        if width > MAP_SIZE || height > MAP_SIZE {
            return None;
        }
        assert(width * height <= MAP_SIZE * MAP_SIZE) by (nonlinear_arith)
            requires
                width <= MAP_SIZE,
                height <= MAP_SIZE,
        ;
        let n: usize = (width as usize) * (height as usize);
        let mut cells: Vec<bool> = Vec::new();
        let mut i: usize = 0;
        while i < n
            invariant
                i <= n,
                cells@.len() == i,
                forall|k: int| 0 <= k < i ==> !cells@[k],
            decreases n - i,
        {
            cells.push(false);
            i = i + 1;
        }
        let g = WalkGrid { width, height, cells };
        assert forall|p: GridPos| !g.walkable(p) by {
            if g.in_bounds(p) {
                g.lemma_cell_index(p);
            }
        }
        Some(g)
    }

    /// A cell inside the extents has its flag inside `flags()`.
    proof fn lemma_cell_index(&self, p: GridPos)
        requires
            self.in_bounds(p),
        ensures
            0 <= p.y * self.spec_width() + p.x < self.spec_width() * self.spec_height(),
            0 <= p.y * self.spec_width() <= p.y * self.spec_width() + p.x,
            self.wf() ==> self.spec_width() * self.spec_height() <= MAP_SIZE * MAP_SIZE,
    {
        assert(0 <= p.y * self.spec_width() + p.x < self.spec_width() * self.spec_height())
            by (nonlinear_arith)
            requires
                0 <= p.x < self.spec_width(),
                0 <= p.y < self.spec_height(),
        ;
        assert(0 <= p.y * self.spec_width()) by (nonlinear_arith);
        if self.wf() {
            assert(self.spec_width() * self.spec_height() <= MAP_SIZE * MAP_SIZE)
                by (nonlinear_arith)
                requires
                    self.spec_width() <= MAP_SIZE,
                    self.spec_height() <= MAP_SIZE,
            ;
        }
    }

    fn index_of(&self, cell: GridPos) -> (i: usize)
        requires
            self.wf(),
            self.in_bounds(cell),
        ensures
            i == cell.y * self.spec_width() + cell.x,
            i < self.flags().len(),
    {
        proof {
            self.lemma_cell_index(cell);
        }
        (cell.y as usize) * (self.width as usize) + (cell.x as usize)
    }

    /// Marks `cell` walkable or not. A cell outside the extents is left
    /// alone, and the result says whether the cell was inside.
    pub fn set_walkable(&mut self, cell: GridPos, walkable: bool) -> (inside: bool)
        requires
            old(self).wf(),
        ensures
            final(self).wf(),
            final(self).spec_width() == old(self).spec_width(),
            final(self).spec_height() == old(self).spec_height(),
            inside == old(self).in_bounds(cell),
            forall|p: GridPos|
                final(self).walkable(p) == if p == cell {
                    inside && walkable
                } else {
                    old(self).walkable(p)
                },
    {
        if cell.x >= self.width || cell.y >= self.height {
            return false;
        }
        let i: usize = self.index_of(cell);
        self.cells.set(i, walkable);
        proof {
            let w = self.spec_width() as int;
            assert forall|p: GridPos|
                final(self).walkable(p) == if p == cell {
                    walkable
                } else {
                    old(self).walkable(p)
                } by {
                if self.in_bounds(p) && p != cell {
                    self.lemma_cell_index(p);
                    assert(p.y * w + p.x != cell.y * w + cell.x) by (nonlinear_arith)
                        requires
                            0 <= p.x < w,
                            0 <= cell.x < w,
                            0 <= p.y,
                            0 <= cell.y,
                            p.x != cell.x || p.y != cell.y,
                    ;
                }
            }
        }
        true
    }

    /// Whether `cell` lies inside the extents.
    pub fn contains(&self, cell: GridPos) -> (b: bool)
        ensures
            b == self.in_bounds(cell),
    {
        cell.x < self.width && cell.y < self.height
    }

    /// Whether `cell` is a walkable tile of the map.
    pub fn is_walkable(&self, cell: GridPos) -> (b: bool)
        requires
            self.wf(),
        ensures
            b == self.walkable(cell),
    {
        if cell.x >= self.width || cell.y >= self.height {
            return false;
        }
        let i: usize = self.index_of(cell);
        self.cells[i]
    }

    /// The up to eight tiles around `cell`, in the order north, south, west,
    /// east, north-west, north-east, south-west, south-east; `None` where the
    /// map ends.
    pub fn neighbor_positions(&self, cell: GridPos) -> (r: [Option<GridPos>; 8])
        requires
            self.in_bounds(cell),
        ensures
            forall|d: int| 0 <= d < 8 ==> r[d] == self.neighbor(cell, d),
    {
        let x: u32 = cell.x;
        let y: u32 = cell.y;
        let up: bool = y < self.height - 1;
        let down: bool = y != 0;
        let left: bool = x != 0;
        let right: bool = x < self.width - 1;
        let north = if up { Some(GridPos { x, y: y + 1 }) } else { None };
        let south = if down { Some(GridPos { x, y: y - 1 }) } else { None };
        let west = if left { Some(GridPos { x: x - 1, y }) } else { None };
        let east = if right { Some(GridPos { x: x + 1, y }) } else { None };
        let northwest = if left && up { Some(GridPos { x: x - 1, y: y + 1 }) } else { None };
        let northeast = if right && up { Some(GridPos { x: x + 1, y: y + 1 }) } else { None };
        let southwest = if left && down { Some(GridPos { x: x - 1, y: y - 1 }) } else { None };
        let southeast = if right && down { Some(GridPos { x: x + 1, y: y - 1 }) } else { None };
        [north, south, west, east, northwest, northeast, southwest, southeast]
    }

    /// Number of columns.
    pub fn width(&self) -> (w: u32)
        ensures
            w == self.spec_width(),
    {
        self.width
    }

    /// Number of rows.
    pub fn height(&self) -> (h: u32)
        ensures
            h == self.spec_height(),
    {
        self.height
    }
}

} // verus!
