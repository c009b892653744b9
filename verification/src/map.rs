//! Maps as text: one line for each row of tiles, one character for each
//! tile, the first line being row `0` and the first character column `0`.

use vstd::prelude::*;

use crate::grid::GridPos;
use crate::grid::WalkGrid;
use crate::grid::MAP_SIZE;

verus! {

/// The character of a tile that agents can walk on.
pub const WALKABLE_TILE: u8 = 46;

/// The byte that ends a line.
pub const LINE_FEED: u8 = 10;

/// The byte that may stand before the line feed.
pub const CARRIAGE_RETURN: u8 = 13;

/// The texture that a tile gets when it is made walkable by hand.
pub const OPENED_TEXTURE: u32 = 4;

/// The texture that a tile gets when it is blocked by hand.
pub const CLOSED_TEXTURE: u32 = 5;

/// The place of a character of the map in the tile sheet.
pub fn char_to_texture_index(char: char) -> (index: u32)
    ensures
        index == if char == 'W' {
            4u32
        } else if char == '.' {
            5u32
        } else if char == 'U' {
            2u32
        } else if char == 'D' {
            3u32
        } else {
            0u32
        },
{
    match char {
        'W' => 4,
        '.' => 5,
        'U' => 2,
        'D' => 3,
        _ => 0,
    }
}

/// One tile of a map text: where it lies, what it looks like, and whether
/// agents can walk on it.
#[derive(Clone, Copy, Debug, PartialEq, Eq, Structural)]
pub struct Tile {
    pub position: GridPos,
    pub texture: u32,
    pub walkable: bool,
}

/// The place in the tile sheet of the character that begins with `byte`.
/// Only characters of one byte have a place of their own.
pub open spec fn texture_of(byte: u8) -> u32 {
    if byte == 87 {
        4
    } else if byte == 46 {
        5
    } else if byte == 85 {
        2
    } else if byte == 68 {
        3
    } else {
        0
    }
}

/// Whether `byte` goes on with a character that an earlier byte began.
pub open spec fn continues_character(byte: u8) -> bool {
    128 <= byte < 192
}

/// Whether a tile begins at `i`: one does with every character, but not
/// with the line feed nor with a carriage return right before it.
pub open spec fn is_tile(text: Seq<u8>, i: int) -> bool {
    &&& 0 <= i < text.len()
    &&& text[i] != LINE_FEED
    &&& !continues_character(text[i])
    &&& !(text[i] == CARRIAGE_RETURN && i + 1 < text.len() && text[i + 1] == LINE_FEED)
}

/// The row of whatever stands at `i`: the number of line feeds before it.
pub open spec fn row_of(text: Seq<u8>, i: int) -> int
    decreases i,
{
    if i <= 0 {
        0
    } else if text[i - 1] == LINE_FEED {
        row_of(text, i - 1) + 1
    } else {
        row_of(text, i - 1)
    }
}

/// The column of whatever stands at `i`: the number of tiles before it in
/// its line.
pub open spec fn column_of(text: Seq<u8>, i: int) -> int
    decreases i,
{
    if i <= 0 {
        0
    } else if text[i - 1] == LINE_FEED {
        0
    } else if is_tile(text, i - 1) {
        column_of(text, i - 1) + 1
    } else {
        column_of(text, i - 1)
    }
}

/// The tile at `i` lies on a map of `MAP_SIZE` tiles a side.
pub open spec fn tile_fits(text: Seq<u8>, i: int) -> bool {
    column_of(text, i) < MAP_SIZE && row_of(text, i) < MAP_SIZE
}

/// Every tile among the first `n` bytes lies on the map.
pub open spec fn tiles_fit(text: Seq<u8>, n: int) -> bool {
    forall|i: int| 0 <= i < n && #[trigger] is_tile(text, i) ==> tile_fits(text, i)
}

/// The tile that begins at `i`.
pub open spec fn tile_at(text: Seq<u8>, i: int) -> Tile {
    Tile {
        position: GridPos { x: column_of(text, i) as u32, y: row_of(text, i) as u32 },
        texture: texture_of(text[i]),
        walkable: text[i] == WALKABLE_TILE,
    }
}

/// The tiles that begin among the first `n` bytes, in their order.
pub open spec fn tiles_in(text: Seq<u8>, n: int) -> Seq<Tile>
    decreases n,
{
    if n <= 0 {
        Seq::empty()
    } else if is_tile(text, n - 1) {
        tiles_in(text, n - 1).push(tile_at(text, n - 1))
    } else {
        tiles_in(text, n - 1)
    }
}

/// Among the first `n` bytes there is a walkable tile at `p`.
pub open spec fn walkable_in_text(text: Seq<u8>, n: int, p: GridPos) -> bool {
    exists|i: int|
        0 <= i < n && #[trigger] is_tile(text, i) && text[i] == WALKABLE_TILE && column_of(text, i)
            == p.x && row_of(text, i) == p.y
}

fn is_tile_byte(text: &[u8], i: usize) -> (b: bool)
    requires
        i < text@.len(),
    ensures
        b == is_tile(text@, i as int),
{
    let byte: u8 = text[i];
    if byte == LINE_FEED || (128 <= byte && byte < 192) {
        false
    } else if byte == CARRIAGE_RETURN && i + 1 < text.len() && text[i + 1] == LINE_FEED {
        false
    } else {
        true
    }
}

fn texture_of_byte(byte: u8) -> (index: u32)
    ensures
        index == texture_of(byte),
{
    if byte < 128 {
        char_to_texture_index(byte as char)
    } else {
        0
    }
}

/// The tiles of a map text, one for each character, or `None` when one of
/// them lies beyond the map.
pub fn create_tile_entities(text: &[u8]) -> (r: Option<Vec<Tile>>)
    ensures
        r is Some <==> tiles_fit(text@, text@.len() as int),
        r matches Some(tiles) ==> tiles@ == tiles_in(text@, text@.len() as int),
{
    let mut tiles: Vec<Tile> = Vec::new();
    let mut column: u32 = 0;
    let mut row: u32 = 0;
    let mut i: usize = 0;
    while i < text.len()
        invariant
            i <= text@.len(),
            column == column_of(text@, i as int),
            row == if row_of(text@, i as int) < MAP_SIZE {
                row_of(text@, i as int)
            } else {
                MAP_SIZE as int
            },
            column <= MAP_SIZE,
            tiles_fit(text@, i as int),
            tiles@ == tiles_in(text@, i as int),
        decreases text@.len() - i,
    {
        let byte: u8 = text[i];
        if byte == LINE_FEED {
            if row < MAP_SIZE {
                row = row + 1;
            }
            column = 0;
        } else if is_tile_byte(text, i) {
            if column >= MAP_SIZE || row >= MAP_SIZE {
                assert(!tile_fits(text@, i as int));
                return None;
            }
            tiles.push(
                Tile {
                    position: GridPos { x: column, y: row },
                    texture: texture_of_byte(byte),
                    walkable: byte == WALKABLE_TILE,
                },
            );
            column = column + 1;
        }
        i = i + 1;
    }
    Some(tiles)
}

/// Reads a map. The result is a grid of `MAP_SIZE` tiles a side on which
/// exactly the tiles written as `.` are walkable, or `None` when the text
/// holds a tile beyond that size.
pub fn create_map(text: &[u8]) -> (r: Option<WalkGrid>)
    ensures
        r is Some <==> tiles_fit(text@, text@.len() as int),
        r matches Some(grid) ==> {
            &&& grid.wf()
            &&& grid.spec_width() == MAP_SIZE
            &&& grid.spec_height() == MAP_SIZE
            &&& forall|p: GridPos|
                grid.walkable(p) <==> walkable_in_text(text@, text@.len() as int, p)
        },
{
    let mut grid = match WalkGrid::new(MAP_SIZE, MAP_SIZE) {
        Some(grid) => grid,
        None => { return None; },
    };
    let mut column: u32 = 0;
    let mut row: u32 = 0;
    let mut i: usize = 0;
    while i < text.len()
        invariant
            i <= text@.len(),
            grid.wf(),
            grid.spec_width() == MAP_SIZE,
            grid.spec_height() == MAP_SIZE,
            column == column_of(text@, i as int),
            row == if row_of(text@, i as int) < MAP_SIZE {
                row_of(text@, i as int)
            } else {
                MAP_SIZE as int
            },
            column <= MAP_SIZE,
            tiles_fit(text@, i as int),
            forall|p: GridPos| grid.walkable(p) <==> walkable_in_text(text@, i as int, p),
        decreases text@.len() - i,
    {
        let byte: u8 = text[i];
        let ghost before = grid;
        if byte == LINE_FEED {
            if row < MAP_SIZE {
                row = row + 1;
            }
            column = 0;
        } else if is_tile_byte(text, i) {
            if column >= MAP_SIZE || row >= MAP_SIZE {
                assert(!tile_fits(text@, i as int));
                return None;
            }
            if byte == WALKABLE_TILE {
                let inside = grid.set_walkable(GridPos { x: column, y: row }, true);
                assert(inside);
            }
            column = column + 1;
        }
        proof {
            let n = i as int;
            assert forall|p: GridPos| grid.walkable(p) <==> walkable_in_text(text@, n + 1, p) by {
                if walkable_in_text(text@, n + 1, p) {
                    let j = choose|j: int|
                        0 <= j < n + 1 && #[trigger] is_tile(text@, j) && text@[j] == WALKABLE_TILE
                            && column_of(text@, j) == p.x && row_of(text@, j) == p.y;
                    if j < n {
                        assert(walkable_in_text(text@, n, p));
                    }
                }
                if grid.walkable(p) {
                    if before.walkable(p) {
                        assert(walkable_in_text(text@, n, p));
                        let j = choose|j: int|
                            0 <= j < n && #[trigger] is_tile(text@, j) && text@[j] == WALKABLE_TILE
                                && column_of(text@, j) == p.x && row_of(text@, j) == p.y;
                        assert(0 <= j < n + 1 && is_tile(text@, j));
                    } else {
                        assert(is_tile(text@, n));
                    }
                }
            }
        }
        i = i + 1;
    }
    Some(grid)
}

/// Opens a blocked tile, or blocks a walkable one. The result is the
/// texture that the tile shows from now on, or `None` for a tile that lies
/// outside the map, where nothing changes.
pub fn drawing(grid: &mut WalkGrid, cell: GridPos) -> (texture: Option<u32>)
    requires
        old(grid).wf(),
    ensures
        final(grid).wf(),
        final(grid).spec_width() == old(grid).spec_width(),
        final(grid).spec_height() == old(grid).spec_height(),
        texture == if !old(grid).in_bounds(cell) {
            None
        } else if old(grid).walkable(cell) {
            Some(CLOSED_TEXTURE)
        } else {
            Some(OPENED_TEXTURE)
        },
        forall|p: GridPos|
            final(grid).walkable(p) == if p == cell {
                old(grid).in_bounds(cell) && !old(grid).walkable(cell)
            } else {
                old(grid).walkable(p)
            },
{
    if !grid.contains(cell) {
        return None;
    }
    if grid.is_walkable(cell) {
        grid.set_walkable(cell, false);
        Some(CLOSED_TEXTURE)
    } else {
        grid.set_walkable(cell, true);
        Some(OPENED_TEXTURE)
    }
}

} // verus!
