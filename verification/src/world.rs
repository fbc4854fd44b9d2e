//! The static world layout: chunk grid dimensions, the per-row chunk-id
//! lookup table, one descriptor per chunk, and the spawn location.
//!
//! A chunk id is an index into the descriptor list; the layout table says
//! which chunk covers which cell of the chunk grid.

use vstd::prelude::*;
use crate::geom::V2;

verus! {

/// Bound on the chunk grid dimensions and on the number of chunks.
pub const WORLD_DIM_LIMIT: usize = 100_000;

/// Bound on a chunk's origin coordinate (chunk index times chunk pixel
/// size), chosen so that origin plus any in-chunk offset stays within the
/// coordinate range.
pub const ORIGIN_LIMIT: i32 = 500_000_000;

/// Bound on the view distance, which bounds the load window's side.
pub const VIEW_DISTANCE_LIMIT: u32 = 1_000;

/// Global facts about the world grid.
#[derive(Debug, Clone)]
pub struct WorldInfo {
    pub name: String,
    pub chunk_size: usize,
    pub tile_size: u32,
    pub chunks_x: usize,
    pub chunks_y: usize,
    pub view_distance: u32,
}

pub struct WorldInfoV {
    pub name: Seq<char>,
    pub chunk_size: int,
    pub tile_size: int,
    pub chunks_x: int,
    pub chunks_y: int,
    pub view_distance: int,
}

impl View for WorldInfo {
    type V = WorldInfoV;

    open spec fn view(&self) -> WorldInfoV {
        WorldInfoV {
            name: self.name@,
            chunk_size: self.chunk_size as int,
            tile_size: self.tile_size as int,
            chunks_x: self.chunks_x as int,
            chunks_y: self.chunks_y as int,
            view_distance: self.view_distance as int,
        }
    }
}

/// Static facts about one chunk: where it sits in the chunk grid, its biome
/// tag, the map it is loaded from, and a display name.
#[derive(Debug, Clone)]
pub struct ChunkConfig {
    pub world_x: usize,
    pub world_y: usize,
    pub biome: String,
    pub map_file: String,
    pub name: String,
}

pub struct ChunkConfigV {
    pub world_x: int,
    pub world_y: int,
    pub biome: Seq<char>,
    pub map_file: Seq<char>,
    pub name: Seq<char>,
}

impl View for ChunkConfig {
    type V = ChunkConfigV;

    open spec fn view(&self) -> ChunkConfigV {
        ChunkConfigV {
            world_x: self.world_x as int,
            world_y: self.world_y as int,
            biome: self.biome@,
            map_file: self.map_file@,
            name: self.name@,
        }
    }
}

/// Where the player first appears, in tiles relative to the spawn chunk.
#[derive(Debug, Clone, Copy, PartialEq, Eq, Structural)]
pub struct SpawnPosition {
    pub x: i32,
    pub y: i32,
}

impl View for SpawnPosition {
    type V = V2;

    open spec fn view(&self) -> V2 {
        V2 { x: self.x as int, y: self.y as int }
    }
}

/// The whole static world description, loaded once.
#[derive(Debug)]
pub struct WorldConfig {
    pub world_info: WorldInfo,
    pub chunk_layout: Vec<Vec<usize>>,
    pub chunks: Vec<ChunkConfig>,
    pub spawn_chunk: usize,
    pub spawn_position: SpawnPosition,
}

#[verifier::ext_equal]
pub struct WorldConfigV {
    pub info: WorldInfoV,
    pub layout: Seq<Seq<usize>>,
    pub chunks: Seq<ChunkConfigV>,
    pub spawn_chunk: usize,
    pub spawn_position: V2,
}

impl View for WorldConfig {
    type V = WorldConfigV;

    open spec fn view(&self) -> WorldConfigV {
        WorldConfigV {
            info: self.world_info@,
            layout: self.chunk_layout@.map_values(|r: Vec<usize>| r@),
            chunks: self.chunks@.map_values(|c: ChunkConfig| c@),
            spawn_chunk: self.spawn_chunk,
            spawn_position: self.spawn_position@,
        }
    }
}

/// Machine-limit side conditions on a world: positive cell sizes, bounded
/// grid dimensions, and chunk origins that stay inside the coordinate range.
pub open spec fn world_wf(w: WorldConfigV) -> bool {
    &&& 1 <= w.info.tile_size
    &&& 1 <= w.info.chunk_size
    &&& w.info.chunk_size * w.info.tile_size <= ORIGIN_LIMIT as int
    &&& w.info.view_distance <= VIEW_DISTANCE_LIMIT as int
    &&& w.layout.len() <= WORLD_DIM_LIMIT as int
    &&& forall|y: int| 0 <= y < w.layout.len() ==> (#[trigger] w.layout[y]).len() <= WORLD_DIM_LIMIT as int
    &&& w.chunks.len() <= WORLD_DIM_LIMIT as int
    &&& forall|i: int|
        0 <= i < w.chunks.len() ==> {
            &&& 0 <= (#[trigger] w.chunks[i]).world_x <= WORLD_DIM_LIMIT as int
            &&& 0 <= w.chunks[i].world_y <= WORLD_DIM_LIMIT as int
            &&& w.chunks[i].world_x * (w.info.chunk_size * w.info.tile_size) <= ORIGIN_LIMIT as int
            &&& w.chunks[i].world_y * (w.info.chunk_size * w.info.tile_size) <= ORIGIN_LIMIT as int
        }
}

impl WorldConfig {
    pub open spec fn wf(&self) -> bool {
        world_wf(self@)
    }
}

/// A chunk descriptor that breaks one of the origin-side conditions refutes
/// `world_wf`.
proof fn lemma_config_violation(w: WorldConfigV, i: int)
    requires
        0 <= i < w.chunks.len(),
        !({
            &&& 0 <= w.chunks[i].world_x <= WORLD_DIM_LIMIT as int
            &&& 0 <= w.chunks[i].world_y <= WORLD_DIM_LIMIT as int
            &&& w.chunks[i].world_x * (w.info.chunk_size * w.info.tile_size) <= ORIGIN_LIMIT as int
            &&& w.chunks[i].world_y * (w.info.chunk_size * w.info.tile_size) <= ORIGIN_LIMIT as int
        }),
    ensures
        !world_wf(w),
{
    if world_wf(w) {
        assert(0 <= (w.chunks[i]).world_x <= WORLD_DIM_LIMIT as int && 0 <= w.chunks[i].world_y
            <= WORLD_DIM_LIMIT as int && w.chunks[i].world_x * (w.info.chunk_size
            * w.info.tile_size) <= ORIGIN_LIMIT as int && w.chunks[i].world_y * (w.info.chunk_size
            * w.info.tile_size) <= ORIGIN_LIMIT as int);
    }
}

/// Decides `world_wf` at run time, so that worlds arriving from outside
/// data can be screened before a manager is built on them.
pub fn check_world_wf(w: &WorldConfig) -> (b: bool)
    ensures
        b == world_wf(w@),
{
    let info = &w.world_info;
    if info.tile_size < 1 || w.world_info.chunk_size < 1 {
        return false;
    }
    if w.world_info.chunk_size > ORIGIN_LIMIT as usize {
        proof {
            assert(w@.info.chunk_size * w@.info.tile_size > ORIGIN_LIMIT as int)
                by (nonlinear_arith)
                requires
                    w@.info.chunk_size > ORIGIN_LIMIT as int,
                    w@.info.tile_size >= 1,
            ;
        }
        return false;
    }
    proof {
        assert((w.world_info.chunk_size as u64) * (w.world_info.tile_size as u64)
            == w@.info.chunk_size * w@.info.tile_size && w@.info.chunk_size * w@.info.tile_size
            <= 500_000_000i64 * 0x1_0000_0000i64) by (nonlinear_arith)
            requires
                w@.info.chunk_size == w.world_info.chunk_size as int,
                w@.info.tile_size == w.world_info.tile_size as int,
                0 <= w@.info.chunk_size <= ORIGIN_LIMIT as int,
                0 <= w@.info.tile_size <= 0x1_0000_0000,
        ;
    }
    if (w.world_info.chunk_size as u64) * (w.world_info.tile_size as u64) > ORIGIN_LIMIT as u64 {
        return false;
    }
    if w.world_info.view_distance > VIEW_DISTANCE_LIMIT {
        return false;
    }
    if w.chunk_layout.len() > WORLD_DIM_LIMIT {
        return false;
    }
    let rows = w.chunk_layout.len();
    let mut y: usize = 0;
    while y < rows
        invariant
            y <= rows,
            rows == w.chunk_layout@.len(),
            forall|j: int| 0 <= j < y ==> (#[trigger] w@.layout[j]).len() <= WORLD_DIM_LIMIT as int,
        decreases rows - y,
    {
        proof {
            assert(w@.layout[y as int] == w.chunk_layout@[y as int]@);
        }
        if w.chunk_layout[y].len() > WORLD_DIM_LIMIT {
            return false;
        }
        y = y + 1;
    }
    if w.chunks.len() > WORLD_DIM_LIMIT {
        return false;
    }
    let cps = (w.world_info.chunk_size as u64) * (w.world_info.tile_size as u64);
    let n = w.chunks.len();
    let mut i: usize = 0;
    while i < n
        invariant
            i <= n,
            n == w.chunks@.len(),
            cps == w@.info.chunk_size * w@.info.tile_size,
            cps <= ORIGIN_LIMIT as u64,
            forall|j: int|
                0 <= j < i ==> {
                    &&& 0 <= (#[trigger] w@.chunks[j]).world_x <= WORLD_DIM_LIMIT as int
                    &&& 0 <= w@.chunks[j].world_y <= WORLD_DIM_LIMIT as int
                    &&& w@.chunks[j].world_x * (w@.info.chunk_size * w@.info.tile_size)
                        <= ORIGIN_LIMIT as int
                    &&& w@.chunks[j].world_y * (w@.info.chunk_size * w@.info.tile_size)
                        <= ORIGIN_LIMIT as int
                },
        decreases n - i,
    {
        proof {
            assert(w@.chunks[i as int] == w.chunks@[i as int]@);
        }
        let cx = w.chunks[i].world_x;
        let cy = w.chunks[i].world_y;
        if cx > WORLD_DIM_LIMIT || cy > WORLD_DIM_LIMIT {
            proof {
                lemma_config_violation(w@, i as int);
            }
            return false;
        }
        proof {
            assert((cx as u64) * cps <= 100_000u64 * 500_000_000u64 && (cx as u64) * cps
                == w@.chunks[i as int].world_x * (w@.info.chunk_size * w@.info.tile_size))
                by (nonlinear_arith)
                requires
                    cps == w@.info.chunk_size * w@.info.tile_size,
                    w@.chunks[i as int].world_x == cx as int,
                    cps <= ORIGIN_LIMIT as u64,
                    cx <= 100_000,
            ;
            assert((cy as u64) * cps <= 100_000u64 * 500_000_000u64 && (cy as u64) * cps
                == w@.chunks[i as int].world_y * (w@.info.chunk_size * w@.info.tile_size))
                by (nonlinear_arith)
                requires
                    cps == w@.info.chunk_size * w@.info.tile_size,
                    w@.chunks[i as int].world_y == cy as int,
                    cps <= ORIGIN_LIMIT as u64,
                    cy <= 100_000,
            ;
        }
        if (cx as u64) * cps > ORIGIN_LIMIT as u64 || (cy as u64) * cps > ORIGIN_LIMIT as u64 {
            proof {
                lemma_config_violation(w@, i as int);
            }
            return false;
        }
        i = i + 1;
    }
    true
}

} // verus!
