//! Integer world geometry: positions, cell indexing, and the translation
//! between continuous world positions and discrete chunk/tile indices.

use vstd::prelude::*;

verus! {

/// Largest world coordinate magnitude the library works with.  Keeping all
/// positions within this bound lets every coordinate sum stay inside `i32`.
pub const COORD_LIMIT: i32 = 1_000_000_000;

/// A continuous world position (or displacement) in integer world units.
#[derive(Clone, Copy, Debug, PartialEq, Eq, Structural)]
pub struct Vec2i {
    pub x: i32,
    pub y: i32,
}

/// Mathematical image of a position: a pair of unbounded integers.
pub struct V2 {
    pub x: int,
    pub y: int,
}

impl View for Vec2i {
    type V = V2;

    open spec fn view(&self) -> V2 {
        V2 { x: self.x as int, y: self.y as int }
    }
}

impl Vec2i {
    pub fn new(x: i32, y: i32) -> (r: Vec2i)
        ensures
            r@ == (V2 { x: x as int, y: y as int }),
    {
        Vec2i { x, y }
    }
}

/// Index of the size-`size` cell that coordinate `v` falls in.  Truncating
/// division, with every coordinate at or below zero landing in cell 0 — the
/// same saturation a float-to-index cast performs.  A point exactly on a cell
/// boundary belongs to the higher-index cell.
pub open spec fn cell_index(v: int, size: int) -> int
    recommends
        1 <= size,
{
    if v <= 0 {
        0
    } else {
        v / size
    }
}

/// Executable form of `cell_index`.
pub fn cell_index_of(v: i32, size: u32) -> (r: usize)
    requires
        1 <= size,
    ensures
        r == cell_index(v as int, size as int),
{
    if v <= 0 {
        0
    } else {
        ((v as u32) / size) as usize
    }
}

/// World position of the top-left corner of cell `(cx, cy)` in a grid of
/// size-`size` cells.
pub fn cell_to_world(cx: usize, cy: usize, size: u32) -> (r: Vec2i)
    requires
        cx * size <= COORD_LIMIT,
        cy * size <= COORD_LIMIT,
    ensures
        r@.x == cx * size,
        r@.y == cy * size,
{
    Vec2i { x: (cx * (size as usize)) as i32, y: (cy * (size as usize)) as i32 }
}

/// World position of the centre of tile `(tile_x, tile_y)`.
pub fn tile_to_world(tile_x: usize, tile_y: usize, tile_size: u32) -> (r: Vec2i)
    requires
        1 <= tile_size,
        tile_x * tile_size + tile_size <= COORD_LIMIT,
        tile_y * tile_size + tile_size <= COORD_LIMIT,
    ensures
        r@.x == tile_x * tile_size + tile_size / 2,
        r@.y == tile_y * tile_size + tile_size / 2,
{
    let half = tile_size / 2;
    Vec2i {
        x: (tile_x * (tile_size as usize) + half as usize) as i32,
        y: (tile_y * (tile_size as usize) + half as usize) as i32,
    }
}

/// Tile indices of the tile that `pos` falls in.
pub fn world_to_tile(pos: Vec2i, tile_size: u32) -> (r: (usize, usize))
    requires
        1 <= tile_size,
    ensures
        r.0 == cell_index(pos@.x, tile_size as int),
        r.1 == cell_index(pos@.y, tile_size as int),
{
    (cell_index_of(pos.x, tile_size), cell_index_of(pos.y, tile_size))
}

/// Translating a cell's top-left corner back through `cell_index` recovers
/// the cell: the two coordinate translations are inverse on cell corners.
pub proof fn lemma_cell_roundtrip(c: int, size: int)
    requires
        1 <= size,
        0 <= c,
    ensures
        cell_index(c * size, size) == c,
{
    if c == 0 {
        assert(c * size == 0);
    } else {
        assert(c * size >= size) by (nonlinear_arith)
            requires
                1 <= size,
                1 <= c,
        ;
        assert((c * size) / size == c) by (nonlinear_arith)
            requires
                1 <= size,
        ;
    }
}

} // verus!
