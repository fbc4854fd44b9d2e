//! The chunk manager: owns the set of resident chunks, decides which chunks
//! to load and unload from the player's position and the view distance,
//! answers walkability queries, and tracks each chunk's live monsters.
//!
//! Maps are provided up front, one slot per chunk id; a slot left empty
//! plays the part of a map that cannot be read, so loading that chunk fails
//! silently and leaves a hole that is retried while the chunk stays in
//! range.

use vstd::prelude::*;
use crate::geom::{cell_index, cell_index_of, cell_to_world, Vec2i, V2, COORD_LIMIT};
use crate::monster::{monster_wf, spawn_monsters, template_wf, ActiveMonster, ActiveMonsterV, Monster, MonsterV, spawn_list};
use crate::tilemap::{map_wf, walkable_at, MapData, MapV, MonsterSpawn};
use crate::world::{world_wf, WorldConfig, WorldConfigV, ORIGIN_LIMIT};

verus! {

/// Bound on the positions accepted by walkability queries: wide enough for
/// any in-range position plus a collision-box offset.
pub const WALK_QUERY_LIMIT: i32 = 1_100_000_000;

/// A resident chunk: its id, grid coordinates, owned map, and live
/// monsters.
#[derive(Debug)]
pub struct Chunk {
    pub id: usize,
    pub world_x: usize,
    pub world_y: usize,
    pub map_data: MapData,
    pub active_monsters: Vec<ActiveMonster>,
    pub is_loaded: bool,
}

#[verifier::ext_equal]
pub struct ChunkV {
    pub id: usize,
    pub world_x: int,
    pub world_y: int,
    pub map: MapV,
    pub monsters: Seq<ActiveMonsterV>,
    pub is_loaded: bool,
}

impl View for Chunk {
    type V = ChunkV;

    open spec fn view(&self) -> ChunkV {
        ChunkV {
            id: self.id,
            world_x: self.world_x as int,
            world_y: self.world_y as int,
            map: self.map_data@,
            monsters: self.active_monsters@.map_values(|m: ActiveMonster| m@),
            is_loaded: self.is_loaded,
        }
    }
}

/// The owner of all dynamic world state.
#[derive(Debug)]
pub struct ChunkManager {
    pub world_config: WorldConfig,
    pub maps: Vec<Option<MapData>>,
    pub chunks: Vec<Chunk>,
    pub loaded_chunks: Vec<usize>,
    pub current_chunk: Option<usize>,
    pub chunk_pixel_size: u32,
}

#[verifier::ext_equal]
pub struct CmV {
    pub world: WorldConfigV,
    pub maps: Seq<Option<MapV>>,
    pub chunks: Seq<ChunkV>,
    pub loaded: Seq<usize>,
    pub current: Option<usize>,
    pub cps: int,
}

impl View for ChunkManager {
    type V = CmV;

    open spec fn view(&self) -> CmV {
        CmV {
            world: self.world_config@,
            maps: self.maps@.map_values(
                |m: Option<MapData>|
                    match m {
                        Some(d) => Some(d@),
                        None => None::<MapV>,
                    },
            ),
            chunks: self.chunks@.map_values(|c: Chunk| c@),
            loaded: self.loaded_chunks@,
            current: self.current_chunk,
            cps: self.chunk_pixel_size as int,
        }
    }
}

/// What the manager guarantees of every resident chunk: a valid id, grid
/// coordinates agreeing with the chunk's descriptor, a well-formed map, and
/// well-formed monsters standing inside the coordinate range.
pub open spec fn chunk_wf(s: CmV, c: ChunkV) -> bool {
    &&& c.id < s.world.chunks.len()
    &&& c.world_x == s.world.chunks[c.id as int].world_x
    &&& c.world_y == s.world.chunks[c.id as int].world_y
    &&& map_wf(c.map)
    &&& c.is_loaded
    &&& c.monsters.len() <= crate::tilemap::MAP_DIM_LIMIT as int
    &&& forall|i: int|
        0 <= i < c.monsters.len() ==> {
            &&& monster_wf(#[trigger] c.monsters[i])
            &&& -COORD_LIMIT as int <= c.monsters[i].position.x <= COORD_LIMIT as int
            &&& -COORD_LIMIT as int <= c.monsters[i].position.y <= COORD_LIMIT as int
        }
}

/// The manager's invariant: a well-formed world, one map slot per chunk id,
/// the resident list and the loaded-id list in lockstep with no duplicate
/// ids, and every resident chunk well formed.
pub open spec fn cm_wf(s: CmV) -> bool {
    &&& world_wf(s.world)
    &&& s.cps == s.world.info.chunk_size * s.world.info.tile_size
    &&& s.maps.len() == s.world.chunks.len()
    &&& forall|i: int|
        0 <= i < s.maps.len() ==> (#[trigger] s.maps[i] matches Some(m) ==> map_wf(m))
    &&& s.chunks.len() == s.loaded.len()
    &&& forall|i: int| 0 <= i < s.chunks.len() ==> (#[trigger] s.chunks[i]).id == s.loaded[i]
    &&& forall|i: int, j: int| 0 <= i < j < s.loaded.len() ==> s.loaded[i] != s.loaded[j]
    &&& forall|i: int| 0 <= i < s.chunks.len() ==> chunk_wf(s, #[trigger] s.chunks[i])
}

/// Index of the resident chunk with id `id`, scanning from `i`.
pub open spec fn chunk_index_from(chunks: Seq<ChunkV>, id: usize, i: int) -> Option<int>
    decreases chunks.len() - i,
{
    if i < 0 || i >= chunks.len() {
        None
    } else if chunks[i].id == id {
        Some(i)
    } else {
        chunk_index_from(chunks, id, i + 1)
    }
}

pub open spec fn chunk_index_model(s: CmV, id: usize) -> Option<int> {
    chunk_index_from(s.chunks, id, 0)
}

/// Whether chunk `id` is resident.
pub open spec fn resident(s: CmV, id: usize) -> bool {
    s.loaded.contains(id)
}

/// The id of the chunk covering `pos`, read from the layout table; `None`
/// when the position falls outside the grid.
pub open spec fn chunk_at_model(s: CmV, pos: V2) -> Option<usize> {
    let cx = cell_index(pos.x, s.cps);
    let cy = cell_index(pos.y, s.cps);
    if cy < s.world.layout.len() && cx < s.world.layout[cy].len() {
        Some(s.world.layout[cy][cx])
    } else {
        None
    }
}

/// The walkability of `pos`: position outside the grid, chunk not resident,
/// tile index out of the chunk's map, or unknown tile character all mean
/// "not walkable"; otherwise the tile's own flag decides.
pub open spec fn walkable_model(s: CmV, pos: V2) -> bool {
    match chunk_at_model(s, pos) {
        None => false,
        Some(id) => match chunk_index_model(s, id) {
            None => false,
            Some(k) => {
                let c = s.chunks[k];
                walkable_at(
                    c.map,
                    V2 { x: pos.x - c.world_x * s.cps, y: pos.y - c.world_y * s.cps },
                )
            },
        },
    }
}

/// Whether chunk `id` can be loaded: it has a descriptor and its map is
/// available.
pub open spec fn loadable(s: CmV, id: usize) -> bool {
    id < s.world.chunks.len() && s.maps[id as int] is Some
}

/// The world position of chunk `id`'s top-left corner.
pub open spec fn chunk_origin(s: CmV, id: usize) -> V2
    recommends
        id < s.world.chunks.len(),
{
    V2 {
        x: s.world.chunks[id as int].world_x * s.cps,
        y: s.world.chunks[id as int].world_y * s.cps,
    }
}

/// The chunk built when `id` loads: descriptor coordinates, the stored map,
/// and the monsters its spawn list resolves to against `ts`.
pub open spec fn fresh_chunk_model(s: CmV, id: usize, ts: Seq<MonsterV>) -> ChunkV
    recommends
        loadable(s, id),
{
    let cfg = s.world.chunks[id as int];
    let m = s.maps[id as int].unwrap();
    ChunkV {
        id,
        world_x: cfg.world_x,
        world_y: cfg.world_y,
        map: m,
        monsters: match m.spawns {
            Some(list) => spawn_list(list, ts, chunk_origin(s, id), m.info.tile_size),
            None => Seq::empty(),
        },
        is_loaded: true,
    }
}

/// Loading a chunk: a no-op when the chunk is already resident or cannot be
/// loaded; otherwise the fresh chunk joins the resident list, and its map
/// slot empties while the chunk owns the map.
pub open spec fn load_chunk_model(s: CmV, id: usize, ts: Seq<MonsterV>) -> CmV {
    if resident(s, id) || !loadable(s, id) {
        s
    } else {
        CmV {
            maps: s.maps.update(id as int, None),
            chunks: s.chunks.push(fresh_chunk_model(s, id, ts)),
            loaded: s.loaded.push(id),
            ..s
        }
    }
}

/// Unloading a chunk: a no-op when the chunk is not resident; otherwise the
/// chunk and its id leave the resident lists, all its combat state is
/// discarded, and its map returns to its slot.
pub open spec fn unload_chunk_model(s: CmV, id: usize) -> CmV {
    match chunk_index_model(s, id) {
        None => s,
        Some(k) => CmV {
            maps: s.maps.update(id as int, Some(s.chunks[k].map)),
            chunks: s.chunks.remove(k),
            loaded: s.loaded.remove(k),
            ..s
        },
    }
}

/// Initialisation: the configured spawn chunk loads (silently failing when
/// its map is missing) and becomes current.
pub open spec fn initialize_model(s: CmV, ts: Seq<MonsterV>) -> CmV {
    CmV { current: Some(s.world.spawn_chunk), ..load_chunk_model(s, s.world.spawn_chunk, ts) }
}

/// Every template in a list is well formed.
pub open spec fn templates_wf(ts: Seq<MonsterV>) -> bool {
    forall|i: int| 0 <= i < ts.len() ==> template_wf(#[trigger] ts[i])
}

/// One cell of the load-window scan: when grid cell `(cx + dx, cy + dy)`
/// exists, its chunk id joins the accumulator unless already present.
pub open spec fn nearby_step(s: CmV, cx: int, cy: int, dy: int, dx: int, acc: Seq<usize>) -> Seq<
    usize,
> {
    let ny = cy + dy;
    let nx = cx + dx;
    if 0 <= ny < s.world.layout.len() && 0 <= nx < s.world.layout[ny].len() {
        let id = s.world.layout[ny][nx];
        if acc.contains(id) {
            acc
        } else {
            acc.push(id)
        }
    } else {
        acc
    }
}

/// Scans the cells of one window row, columns `dx` through `v`.
pub open spec fn nearby_cols(
    s: CmV,
    cx: int,
    cy: int,
    v: int,
    dy: int,
    dx: int,
    acc: Seq<usize>,
) -> Seq<usize>
    decreases v + 1 - dx,
{
    if dx > v {
        acc
    } else {
        nearby_cols(s, cx, cy, v, dy, dx + 1, nearby_step(s, cx, cy, dy, dx, acc))
    }
}

/// Scans the window rows `dy` through `v`.
pub open spec fn nearby_rows(s: CmV, cx: int, cy: int, v: int, dy: int, acc: Seq<usize>) -> Seq<
    usize,
>
    decreases v + 1 - dy,
{
    if dy > v {
        acc
    } else {
        nearby_rows(s, cx, cy, v, dy + 1, nearby_cols(s, cx, cy, v, dy, -v, acc))
    }
}

/// The chunks that must stay resident around `center`: the centre chunk
/// itself plus, when the centre has a descriptor, every chunk whose grid
/// cell lies within the view distance (a square window, clipped to the
/// grid), deduplicated in scan order.
pub open spec fn nearby_model(s: CmV, center: usize) -> Seq<usize> {
    if center < s.world.chunks.len() {
        let cfg = s.world.chunks[center as int];
        let v = s.world.info.view_distance;
        nearby_rows(s, cfg.world_x, cfg.world_y, v, -v, seq![center])
    } else {
        seq![center]
    }
}

/// Unloads the listed chunks in order.
pub open spec fn unload_ids_model(s: CmV, ids: Seq<usize>) -> CmV
    decreases ids.len(),
{
    if ids.len() == 0 {
        s
    } else {
        unload_ids_model(unload_chunk_model(s, ids[0]), ids.drop_first())
    }
}

/// Loads the listed chunks in order; already-resident and unloadable ones
/// are no-ops.
pub open spec fn load_ids_model(s: CmV, ids: Seq<usize>, ts: Seq<MonsterV>) -> CmV
    decreases ids.len(),
{
    if ids.len() == 0 {
        s
    } else {
        load_ids_model(load_chunk_model(s, ids[0], ts), ids.drop_first(), ts)
    }
}

/// One chunk-residency update for player position `pos`: when the position
/// maps to a chunk, that chunk becomes current, every resident chunk
/// outside the view window is unloaded, and every window chunk not yet
/// resident is loaded.  A position outside the grid changes nothing.
pub open spec fn update_model(s: CmV, pos: V2, ts: Seq<MonsterV>) -> CmV {
    match chunk_at_model(s, pos) {
        None => s,
        Some(c) => {
            let s1 = CmV { current: Some(c), ..s };
            let nearby = nearby_model(s1, c);
            let to_unload = s1.loaded.filter(|id: usize| !nearby.contains(id));
            let s2 = unload_ids_model(s1, to_unload);
            load_ids_model(s2, nearby, ts)
        },
    }
}

/// A well-formed world's chunk pixel size is positive and bounded.
pub proof fn lemma_world_cps(w: WorldConfigV)
    requires
        world_wf(w),
    ensures
        1 <= w.info.chunk_size * w.info.tile_size <= ORIGIN_LIMIT as int,
        w.info.chunk_size <= ORIGIN_LIMIT as int,
        w.info.tile_size <= ORIGIN_LIMIT as int,
{
    assert(1 <= w.info.chunk_size * w.info.tile_size && w.info.chunk_size <= w.info.chunk_size
        * w.info.tile_size && w.info.tile_size <= w.info.chunk_size * w.info.tile_size)
        by (nonlinear_arith)
        requires
            1 <= w.info.chunk_size,
            1 <= w.info.tile_size,
    ;
}

impl ChunkManager {
    pub open spec fn wf(&self) -> bool {
        cm_wf(self@)
    }

    /// A fresh manager for `world_config`: no chunk resident, no current
    /// chunk, one empty map slot per chunk id, and the chunk pixel size
    /// computed from the world's tile and chunk sizes.
    pub fn new(world_config: WorldConfig) -> (r: ChunkManager)
        requires
            world_config.wf(),
        ensures
            r.wf(),
            r@.world == world_config@,
            r@.chunks == Seq::<ChunkV>::empty(),
            r@.loaded == Seq::<usize>::empty(),
            r@.current is None,
            r@.cps == world_config@.info.chunk_size * world_config@.info.tile_size,
            forall|i: int| 0 <= i < r@.maps.len() ==> #[trigger] r@.maps[i] is None,
    {
        proof {
            lemma_world_cps(world_config@);
        }
        let chunk_pixel_size = (world_config.world_info.chunk_size as u32)
            * world_config.world_info.tile_size;
        let n = world_config.chunks.len();
        let mut maps: Vec<Option<MapData>> = Vec::new();
        let mut i: usize = 0;
        while i < n
            invariant
                i <= n,
                maps@.len() == i,
                forall|j: int| 0 <= j < i ==> #[trigger] maps@[j] is None,
            decreases n - i,
        {
            maps.push(None);
            i = i + 1;
        }
        let r = ChunkManager {
            world_config,
            maps,
            chunks: Vec::new(),
            loaded_chunks: Vec::new(),
            current_chunk: None,
            chunk_pixel_size,
        };
        proof {
            assert(r@.chunks =~= Seq::<ChunkV>::empty());
            assert(r@.loaded =~= Seq::<usize>::empty());
        }
        r
    }

    /// Provides the map for chunk id `id`.  Rejects an id outside the
    /// descriptor list and a map that breaks the machine limits; a slot
    /// never provided stands for a map that cannot be read.
    pub fn set_chunk_map(&mut self, id: usize, map: MapData) -> (accepted: bool)
        requires
            old(self).wf(),
        ensures
            final(self).wf(),
            accepted == (id < old(self)@.maps.len() && map_wf(map@)),
            accepted ==> final(self)@ == (CmV { maps: old(self)@.maps.update(id as int, Some(map@)), ..old(self)@ }),
            !accepted ==> final(self)@ == old(self)@,
    {
        if id < self.maps.len() && crate::tilemap::check_map_wf(&map) {
            self.maps.set(id, Some(map));
            proof {
                assert(self@.maps =~= old(self)@.maps.update(id as int, Some(map@)));
                assert(self@ =~= (CmV {
                    maps: old(self)@.maps.update(id as int, Some(map@)),
                    ..old(self)@
                }));
                assert forall|i: int| 0 <= i < self@.chunks.len() implies chunk_wf(
                    self@,
                    #[trigger] self@.chunks[i],
                ) by {
                    assert(chunk_wf(old(self)@, old(self)@.chunks[i]));
                }
            }
            true
        } else {
            false
        }
    }

    /// The chunk-grid cell that `world_pos` falls in.
    pub fn world_to_chunk_coords(&self, world_pos: Vec2i) -> (r: (usize, usize))
        requires
            self.wf(),
        ensures
            r.0 == cell_index(world_pos@.x, self@.cps),
            r.1 == cell_index(world_pos@.y, self@.cps),
    {
        proof {
            lemma_world_cps(self@.world);
        }
        let cx = cell_index_of(world_pos.x, self.chunk_pixel_size);
        let cy = cell_index_of(world_pos.y, self.chunk_pixel_size);
        (cx, cy)
    }

    /// The world position of the top-left corner of chunk-grid cell
    /// `(chunk_x, chunk_y)`.
    pub fn chunk_to_world_coords(&self, chunk_x: usize, chunk_y: usize) -> (r: Vec2i)
        requires
            self.wf(),
            chunk_x * self@.cps <= COORD_LIMIT as int,
            chunk_y * self@.cps <= COORD_LIMIT as int,
        ensures
            r@.x == chunk_x * self@.cps,
            r@.y == chunk_y * self@.cps,
    {
        cell_to_world(chunk_x, chunk_y, self.chunk_pixel_size)
    }

    /// The id of the chunk covering `world_pos`, or `None` outside the grid.
    pub fn get_chunk_at_position(&self, world_pos: Vec2i) -> (r: Option<usize>)
        requires
            self.wf(),
        ensures
            r == chunk_at_model(self@, world_pos@),
    {
        let (cx, cy) = self.world_to_chunk_coords(world_pos);
        if cy < self.world_config.chunk_layout.len() {
            proof {
                assert(self@.world.layout[cy as int] == self.world_config.chunk_layout@[cy as int]@);
            }
            if cx < self.world_config.chunk_layout[cy].len() {
                Some(self.world_config.chunk_layout[cy][cx])
            } else {
                None
            }
        } else {
            None
        }
    }

    /// Index of the resident chunk with id `chunk_id` in the resident list.
    pub(crate) fn chunk_index_of(&self, chunk_id: usize) -> (r: Option<usize>)
        ensures
            match r {
                Some(k) => {
                    &&& chunk_index_model(self@, chunk_id) == Some(k as int)
                    &&& k < self@.chunks.len()
                    &&& self@.chunks[k as int].id == chunk_id
                },
                None => chunk_index_model(self@, chunk_id) is None,
            },
    {
        let n = self.chunks.len();
        let mut i: usize = 0;
        while i < n
            invariant
                i <= n,
                n == self.chunks@.len(),
                chunk_index_model(self@, chunk_id) == chunk_index_from(self@.chunks, chunk_id, i as int),
            decreases n - i,
        {
            proof {
                assert(self@.chunks[i as int] == self.chunks@[i as int]@);
            }
            if self.chunks[i].id == chunk_id {
                return Some(i);
            }
            i = i + 1;
        }
        None
    }

    /// Shared access to a resident chunk, `None` when `chunk_id` is not
    /// resident.
    pub fn get_chunk(&self, chunk_id: usize) -> (r: Option<&Chunk>)
        ensures
            match r {
                Some(c) => {
                    &&& chunk_index_model(self@, chunk_id) matches Some(k)
                    &&& c@ == self@.chunks[chunk_index_model(self@, chunk_id).unwrap()]
                },
                None => chunk_index_model(self@, chunk_id) is None,
            },
    {
        match self.chunk_index_of(chunk_id) {
            Some(k) => {
                proof {
                    assert(self@.chunks[k as int] == self.chunks@[k as int]@);
                }
                Some(&self.chunks[k])
            },
            None => None,
        }
    }

    /// Exclusive access to a resident chunk, for combat bookkeeping and
    /// display state.  The new chunk value replaces the old one in the
    /// resident list; a caller that changes the chunk's id or map takes
    /// responsibility for re-establishing the manager invariant.
    pub fn get_chunk_mut(&mut self, chunk_id: usize) -> (r: &mut Chunk)
        requires
            old(self).wf(),
            resident(old(self)@, chunk_id),
        ensures
            chunk_index_model(old(self)@, chunk_id) is Some,
            (*r)@ == old(self)@.chunks[chunk_index_model(old(self)@, chunk_id).unwrap()],
            final(self)@ == (CmV {
                chunks: old(self)@.chunks.update(
                    chunk_index_model(old(self)@, chunk_id).unwrap(),
                    final(r)@,
                ),
                ..old(self)@
            }),
    {
        proof {
            lemma_resident_index(self@, chunk_id);
        }
        let k_opt = self.chunk_index_of(chunk_id);
        let k = k_opt.unwrap();
        proof {
            assert(self@.chunks[k as int] == self.chunks@[k as int]@);
        }
        &mut self.chunks[k]
    }

    /// The ids of the resident chunks, in residency order.
    pub fn get_loaded_chunk_ids(&self) -> (r: Vec<usize>)
        ensures
            r@ == self@.loaded,
    {
        let n = self.loaded_chunks.len();
        let mut r: Vec<usize> = Vec::new();
        let mut i: usize = 0;
        while i < n
            invariant
                i <= n,
                n == self.loaded_chunks@.len(),
                r@ =~= self.loaded_chunks@.take(i as int),
            decreases n - i,
        {
            r.push(self.loaded_chunks[i]);
            i = i + 1;
        }
        proof {
            assert(self.loaded_chunks@.take(n as int) =~= self.loaded_chunks@);
        }
        r
    }

    /// Whether the tile under `world_pos` is walkable: the owning chunk must
    /// be inside the grid and resident, and the tile under the chunk-local
    /// position walkable on that chunk's map.
    pub fn is_position_walkable(&self, world_pos: Vec2i) -> (b: bool)
        requires
            self.wf(),
            -WALK_QUERY_LIMIT <= world_pos@.x <= WALK_QUERY_LIMIT,
            -WALK_QUERY_LIMIT <= world_pos@.y <= WALK_QUERY_LIMIT,
        ensures
            b == walkable_model(self@, world_pos@),
    {
        let chunk_id = match self.get_chunk_at_position(world_pos) {
            Some(id) => id,
            None => {
                return false;
            },
        };
        let k = match self.chunk_index_of(chunk_id) {
            Some(k) => k,
            None => {
                return false;
            },
        };
        proof {
            assert(self@.chunks[k as int] == self.chunks@[k as int]@);
            assert(chunk_wf(self@, self@.chunks[k as int]));
        }
        let world_offset = self.chunk_to_world_coords(self.chunks[k].world_x, self.chunks[k].world_y);
        let local = Vec2i {
            x: ((world_pos.x as i64) - (world_offset.x as i64)) as i32,
            y: ((world_pos.y as i64) - (world_offset.y as i64)) as i32,
        };
        crate::tilemap::is_position_walkable(local, &self.chunks[k].map_data)
    }

    /// Whether `chunk_id` is in the loaded-id list.
    fn loaded_contains(&self, chunk_id: usize) -> (b: bool)
        ensures
            b == resident(self@, chunk_id),
    {
        let n = self.loaded_chunks.len();
        let mut i: usize = 0;
        while i < n
            invariant
                i <= n,
                n == self.loaded_chunks@.len(),
                forall|j: int| 0 <= j < i ==> self.loaded_chunks@[j] != chunk_id,
            decreases n - i,
        {
            if self.loaded_chunks[i] == chunk_id {
                proof {
                    assert(self@.loaded[i as int] == chunk_id);
                }
                return true;
            }
            i = i + 1;
        }
        proof {
            assert(forall|j: int|
                0 <= j < self@.loaded.len() ==> self@.loaded[j] != chunk_id);
        }
        false
    }

    /// Loads chunk `chunk_id`: builds the chunk from its stored map, spawns
    /// its monsters from the template list, and makes it resident.  Silently
    /// a no-op when the chunk is already resident, has no descriptor, or its
    /// map is missing.
    pub fn load_chunk(&mut self, chunk_id: usize, monster_templates: &Vec<Monster>)
        requires
            old(self).wf(),
            templates_wf(monster_templates@.map_values(|t: Monster| t@)),
        ensures
            final(self).wf(),
            final(self)@ == load_chunk_model(
                old(self)@,
                chunk_id,
                monster_templates@.map_values(|t: Monster| t@),
            ),
    {
        let ghost s0 = self@;
        let ghost tsv = monster_templates@.map_values(|t: Monster| t@);
        if self.loaded_contains(chunk_id) {
            return;
        }
        if chunk_id >= self.world_config.chunks.len() {
            proof {
                assert(!loadable(s0, chunk_id));
            }
            return;
        }
        match &self.maps[chunk_id] {
            None => {
                proof {
                    assert(s0.maps[chunk_id as int] is None);
                }
                return;
            },
            Some(_) => {},
        }
        let mut slot: Option<MapData> = None;
        self.maps.set_and_swap(chunk_id, &mut slot);
        let map_data = slot.unwrap();
        proof {
            assert(s0.maps[chunk_id as int] == Some(map_data@));
            assert(map_wf(map_data@));
            assert(s0.world.chunks[chunk_id as int] == self.world_config.chunks@[chunk_id as int]@);
            lemma_world_cps(s0.world);
        }
        let cfg_x = self.world_config.chunks[chunk_id].world_x;
        let cfg_y = self.world_config.chunks[chunk_id].world_y;
        proof {
            assert(cfg_x * s0.cps <= COORD_LIMIT as int);
            assert(cfg_y * s0.cps <= COORD_LIMIT as int);
        }
        let origin = cell_to_world(cfg_x, cfg_y, self.chunk_pixel_size);
        proof {
            assert(origin@ == chunk_origin(s0, chunk_id));
        }
        let tile_size = map_data.map_info.tile_size;
        let active_monsters: Vec<ActiveMonster> = match &map_data.monster_spawns {
            Some(spawns) => {
                proof {
                    let lv = map_data@.spawns.unwrap();
                    assert(lv == spawns@.map_values(|s: MonsterSpawn| s@));
                    assert forall|j: int| 0 <= j < spawns@.len() implies {
                        &&& 0 <= (#[trigger] spawns@[j])@.x
                        &&& 0 <= spawns@[j]@.y
                        &&& spawns@[j]@.x * tile_size <= crate::tilemap::SPAWN_OFFSET_LIMIT
                        &&& spawns@[j]@.y * tile_size <= crate::tilemap::SPAWN_OFFSET_LIMIT
                    } by {
                        assert(lv[j] == spawns@[j]@);
                    }
                }
                spawn_monsters(spawns, monster_templates, origin, tile_size)
            },
            None => Vec::new(),
        };
        proof {
            assert(active_monsters@.map_values(|m: ActiveMonster| m@)
                == fresh_chunk_model(s0, chunk_id, tsv).monsters);
        }
        let chunk = Chunk {
            id: chunk_id,
            world_x: cfg_x,
            world_y: cfg_y,
            map_data,
            active_monsters,
            is_loaded: true,
        };
        proof {
            assert(chunk@ =~= fresh_chunk_model(s0, chunk_id, tsv));
        }
        self.chunks.push(chunk);
        self.loaded_chunks.push(chunk_id);
        proof {
            let s1 = load_chunk_model(s0, chunk_id, tsv);
            assert(self@.maps =~= s1.maps);
            assert(self@.chunks =~= s1.chunks);
            assert(self@.loaded =~= s1.loaded);
            assert(self@ =~= s1);
            lemma_load_chunk_model_wf(s0, chunk_id, tsv);
        }
    }

    /// Unloads chunk `chunk_id`: the chunk and its id leave the resident
    /// lists, its combat state is discarded, and its map returns to its
    /// slot.  Silently a no-op when the chunk is not resident.
    pub fn unload_chunk(&mut self, chunk_id: usize)
        requires
            old(self).wf(),
        ensures
            final(self).wf(),
            final(self)@ == unload_chunk_model(old(self)@, chunk_id),
    {
        let ghost s0 = self@;
        let k = match self.chunk_index_of(chunk_id) {
            Some(k) => k,
            None => {
                return;
            },
        };
        proof {
            assert(chunk_wf(s0, s0.chunks[k as int]));
            assert(s0.chunks[k as int] == self.chunks@[k as int]@);
        }
        let chunk = self.chunks.remove(k);
        self.loaded_chunks.remove(k);
        let mut slot: Option<MapData> = Some(chunk.map_data);
        self.maps.set_and_swap(chunk_id, &mut slot);
        proof {
            let s1 = unload_chunk_model(s0, chunk_id);
            assert(self@.maps =~= s1.maps);
            assert(self@.chunks =~= s1.chunks);
            assert(self@.loaded =~= s1.loaded);
            assert(self@ =~= s1);
            lemma_unload_chunk_model_wf(s0, chunk_id);
        }
    }

    /// Loads the configured spawn chunk and makes it the current chunk.
    /// Fails silently when the spawn chunk's map is missing: the caller must
    /// then live with an empty world.
    pub fn initialize(&mut self, monster_templates: &Vec<Monster>)
        requires
            old(self).wf(),
            templates_wf(monster_templates@.map_values(|t: Monster| t@)),
        ensures
            final(self).wf(),
            final(self)@ == initialize_model(
                old(self)@,
                monster_templates@.map_values(|t: Monster| t@),
            ),
    {
        let spawn_chunk = self.world_config.spawn_chunk;
        self.load_chunk(spawn_chunk, monster_templates);
        self.current_chunk = Some(spawn_chunk);
        proof {
            assert(self@ =~= initialize_model(
                old(self)@,
                monster_templates@.map_values(|t: Monster| t@),
            ));
        }
    }

    /// The ids of the chunks within the view window around `center_chunk`,
    /// in scan order, starting with `center_chunk` itself.
    fn get_nearby_chunks(&self, center_chunk: usize) -> (r: Vec<usize>)
        requires
            self.wf(),
        ensures
            r@ == nearby_model(self@, center_chunk),
    {
        let ghost s = self@;
        let mut nearby: Vec<usize> = Vec::new();
        nearby.push(center_chunk);
        proof {
            assert(nearby@ =~= seq![center_chunk]);
        }
        if center_chunk >= self.world_config.chunks.len() {
            return nearby;
        }
        proof {
            assert(s.world.chunks[center_chunk as int]
                == self.world_config.chunks@[center_chunk as int]@);
        }
        let cx = self.world_config.chunks[center_chunk].world_x as i32;
        let cy = self.world_config.chunks[center_chunk].world_y as i32;
        let v = self.world_config.world_info.view_distance as i32;
        let ghost cx0 = s.world.chunks[center_chunk as int].world_x;
        let ghost cy0 = s.world.chunks[center_chunk as int].world_y;
        let ghost vd = s.world.info.view_distance;
        let mut dy: i32 = -v;
        while dy <= v
            invariant
                s == self@,
                self.wf(),
                cx == cx0,
                cy == cy0,
                v == vd,
                0 <= vd <= 1_000,
                0 <= cx0 <= 100_000,
                0 <= cy0 <= 100_000,
                -v <= dy <= v + 1,
                nearby_rows(s, cx0, cy0, vd, dy as int, nearby@) == nearby_model(s, center_chunk),
            decreases v + 1 - dy,
        {
            let ghost row_entry = nearby@;
            let mut dx: i32 = -v;
            while dx <= v
                invariant
                    s == self@,
                    self.wf(),
                    cx == cx0,
                    cy == cy0,
                    v == vd,
                    0 <= vd <= 1_000,
                    0 <= cx0 <= 100_000,
                    0 <= cy0 <= 100_000,
                    -v <= dy <= v,
                    -v <= dx <= v + 1,
                    nearby_cols(s, cx0, cy0, vd, dy as int, dx as int, nearby@) == nearby_cols(
                        s,
                        cx0,
                        cy0,
                        vd,
                        dy as int,
                        -vd,
                        row_entry,
                    ),
                decreases v + 1 - dx,
            {
                let ghost acc0 = nearby@;
                let ny = cy + dy;
                let nx = cx + dx;
                if ny >= 0 && nx >= 0 {
                    let ny = ny as usize;
                    let nx = nx as usize;
                    if ny < self.world_config.chunk_layout.len() {
                        proof {
                            assert(s.world.layout[ny as int]
                                == self.world_config.chunk_layout@[ny as int]@);
                        }
                        if nx < self.world_config.chunk_layout[ny].len() {
                            let id = self.world_config.chunk_layout[ny][nx];
                            if !ids_contain(&nearby, id) {
                                nearby.push(id);
                            }
                        }
                    }
                }
                proof {
                    assert(nearby@ == nearby_step(s, cx0, cy0, dy as int, dx as int, acc0));
                }
                dx = dx + 1;
            }
            proof {
                assert(nearby_rows(s, cx0, cy0, vd, dy as int, row_entry) == nearby_rows(
                    s,
                    cx0,
                    cy0,
                    vd,
                    dy as int + 1,
                    nearby_cols(s, cx0, cy0, vd, dy as int, -vd, row_entry),
                ));
            }
            dy = dy + 1;
        }
        nearby
    }

    /// Recomputes the player's chunk and brings the resident set in line
    /// with the view window: the player's chunk becomes current, resident
    /// chunks outside the window are unloaded, and window chunks not yet
    /// resident are loaded.  Does nothing when the player stands outside
    /// the grid.  Loading and unloading are idempotent, so a second call
    /// from the same position changes nothing.
    pub fn update_loaded_chunks(&mut self, player_pos: Vec2i, monster_templates: &Vec<Monster>)
        requires
            old(self).wf(),
            templates_wf(monster_templates@.map_values(|t: Monster| t@)),
        ensures
            final(self).wf(),
            final(self)@ == update_model(
                old(self)@,
                player_pos@,
                monster_templates@.map_values(|t: Monster| t@),
            ),
    {
        let ghost s0 = self@;
        let ghost tsv = monster_templates@.map_values(|t: Monster| t@);
        let current = match self.get_chunk_at_position(player_pos) {
            Some(id) => id,
            None => {
                return;
            },
        };
        self.current_chunk = Some(current);
        let ghost s1 = self@;
        proof {
            assert(s1 =~= (CmV { current: Some(current), ..s0 }));
            assert(cm_wf(s1));
        }
        let nearby = self.get_nearby_chunks(current);
        let ghost nearby_v = nearby_model(s1, current);
        let mut to_unload: Vec<usize> = Vec::new();
        let n = self.loaded_chunks.len();
        let mut i: usize = 0;
        while i < n
            invariant
                i <= n,
                s1 == self@,
                n == self.loaded_chunks@.len(),
                nearby@ == nearby_v,
                to_unload@ == s1.loaded.take(i as int).filter(
                    |id: usize| !nearby_v.contains(id),
                ),
            decreases n - i,
        {
            let ghost pred = |id: usize| !nearby_v.contains(id);
            let ghost pre = s1.loaded.take(i as int);
            proof {
                assert(s1.loaded.take(i as int + 1).drop_last() =~= pre);
                assert(s1.loaded.take(i as int + 1).last() == s1.loaded[i as int]);
                reveal(Seq::filter);
            }
            let id = self.loaded_chunks[i];
            if !ids_contain(&nearby, id) {
                to_unload.push(id);
            }
            i = i + 1;
        }
        proof {
            assert(s1.loaded.take(n as int) =~= s1.loaded);
        }
        let ghost to_unload_v = s1.loaded.filter(|id: usize| !nearby_v.contains(id));
        let m = to_unload.len();
        let mut j: usize = 0;
        while j < m
            invariant
                j <= m,
                m == to_unload@.len(),
                to_unload@ == to_unload_v,
                self.wf(),
                self@ == unload_ids_model(s1, to_unload_v.take(j as int)),
            decreases m - j,
        {
            let ghost before = self@;
            let id = to_unload[j];
            self.unload_chunk(id);
            proof {
                assert(to_unload_v.take(j as int + 1) =~= to_unload_v.take(j as int).push(
                    to_unload_v[j as int],
                ));
                lemma_unload_ids_push(s1, to_unload_v.take(j as int), to_unload_v[j as int]);
            }
            j = j + 1;
        }
        proof {
            assert(to_unload_v.take(m as int) =~= to_unload_v);
        }
        let ghost s2 = unload_ids_model(s1, to_unload_v);
        let p = nearby.len();
        let mut k: usize = 0;
        while k < p
            invariant
                k <= p,
                p == nearby@.len(),
                nearby@ == nearby_v,
                templates_wf(monster_templates@.map_values(|t: Monster| t@)),
                self.wf(),
                self@ == load_ids_model(s2, nearby_v.take(k as int), monster_templates@.map_values(|t: Monster| t@)),
            decreases p - k,
        {
            let id = nearby[k];
            self.load_chunk(id, monster_templates);
            proof {
                assert(nearby_v.take(k as int + 1) =~= nearby_v.take(k as int).push(
                    nearby_v[k as int],
                ));
                lemma_load_ids_push(
                    s2,
                    nearby_v.take(k as int),
                    nearby_v[k as int],
                    monster_templates@.map_values(|t: Monster| t@),
                );
            }
            k = k + 1;
        }
        proof {
            assert(nearby_v.take(p as int) =~= nearby_v);
            assert(self@ == update_model(s0, player_pos@, tsv));
        }
    }
}

/// Unloading a pushed id last is unloading it after the rest.
pub proof fn lemma_unload_ids_push(s: CmV, ids: Seq<usize>, x: usize)
    ensures
        unload_ids_model(s, ids.push(x)) == unload_chunk_model(unload_ids_model(s, ids), x),
    decreases ids.len(),
{
    reveal_with_fuel(unload_ids_model, 3);
    if ids.len() == 0 {
        assert(ids.push(x)[0] == x);
        assert(ids.push(x).drop_first() =~= Seq::<usize>::empty());
    } else {
        assert(ids.push(x)[0] == ids[0]);
        assert(ids.push(x).drop_first() =~= ids.drop_first().push(x));
        lemma_unload_ids_push(unload_chunk_model(s, ids[0]), ids.drop_first(), x);
    }
}

/// Loading a pushed id last is loading it after the rest.
pub proof fn lemma_load_ids_push(s: CmV, ids: Seq<usize>, x: usize, ts: Seq<MonsterV>)
    ensures
        load_ids_model(s, ids.push(x), ts) == load_chunk_model(load_ids_model(s, ids, ts), x, ts),
    decreases ids.len(),
{
    reveal_with_fuel(load_ids_model, 3);
    if ids.len() == 0 {
        assert(ids.push(x)[0] == x);
        assert(ids.push(x).drop_first() =~= Seq::<usize>::empty());
    } else {
        assert(ids.push(x)[0] == ids[0]);
        assert(ids.push(x).drop_first() =~= ids.drop_first().push(x));
        lemma_load_ids_push(load_chunk_model(s, ids[0], ts), ids.drop_first(), x, ts);
    }
}

/// Whether `x` occurs in `v`.
fn ids_contain(v: &Vec<usize>, x: usize) -> (b: bool)
    ensures
        b == v@.contains(x),
{
    let n = v.len();
    let mut i: usize = 0;
    while i < n
        invariant
            i <= n,
            n == v@.len(),
            forall|j: int| 0 <= j < i ==> v@[j] != x,
        decreases n - i,
    {
        if v[i] == x {
            return true;
        }
        i = i + 1;
    }
    proof {
        assert(forall|j: int| 0 <= j < v@.len() ==> v@[j] != x);
    }
    false
}

/// `load_chunk_model` preserves the manager invariant.
pub proof fn lemma_load_chunk_model_wf(s: CmV, id: usize, ts: Seq<MonsterV>)
    requires
        cm_wf(s),
        templates_wf(ts),
    ensures
        cm_wf(load_chunk_model(s, id, ts)),
{
    if !resident(s, id) && loadable(s, id) {
        let s1 = load_chunk_model(s, id, ts);
        let fresh = fresh_chunk_model(s, id, ts);
        lemma_world_cps(s.world);
        assert(map_wf(s.maps[id as int].unwrap()));
        match s.maps[id as int].unwrap().spawns {
            Some(list) => {
                assert(0 <= chunk_origin(s, id).x <= ORIGIN_LIMIT as int
                    && 0 <= chunk_origin(s, id).y <= ORIGIN_LIMIT as int) by (nonlinear_arith)
                    requires
                        0 <= s.world.chunks[id as int].world_x,
                        0 <= s.world.chunks[id as int].world_y,
                        1 <= s.cps,
                        s.world.chunks[id as int].world_x * s.cps <= ORIGIN_LIMIT as int,
                        s.world.chunks[id as int].world_y * s.cps <= ORIGIN_LIMIT as int,
                        chunk_origin(s, id).x == s.world.chunks[id as int].world_x * s.cps,
                        chunk_origin(s, id).y == s.world.chunks[id as int].world_y * s.cps,
                ;
                crate::monster::lemma_spawn_list_wf(
                    list,
                    ts,
                    chunk_origin(s, id),
                    s.maps[id as int].unwrap().info.tile_size,
                );
                crate::monster::lemma_spawn_list_len(
                    list,
                    ts,
                    chunk_origin(s, id),
                    s.maps[id as int].unwrap().info.tile_size,
                );
            },
            None => {},
        }
        assert(chunk_wf(s1, fresh));
        assert forall|i: int| 0 <= i < s1.chunks.len() implies chunk_wf(
            s1,
            #[trigger] s1.chunks[i],
        ) by {
            if i < s.chunks.len() {
                assert(s1.chunks[i] == s.chunks[i]);
                assert(chunk_wf(s, s.chunks[i]));
            } else {
                assert(s1.chunks[i] == fresh);
            }
        }
        assert forall|i: int, j: int| 0 <= i < j < s1.loaded.len() implies s1.loaded[i]
            != s1.loaded[j] by {
            if j < s.loaded.len() {
            } else {
                assert(s1.loaded[j] == id);
                assert(!s.loaded.contains(id));
                assert(s1.loaded[i] == s.loaded[i]);
            }
        }
    }
}

/// `unload_chunk_model` preserves the manager invariant.
pub proof fn lemma_unload_chunk_model_wf(s: CmV, id: usize)
    requires
        cm_wf(s),
    ensures
        cm_wf(unload_chunk_model(s, id)),
{
    match chunk_index_model(s, id) {
        None => {},
        Some(k) => {
            lemma_chunk_index_bounds(s.chunks, id, 0);
            let s1 = unload_chunk_model(s, id);
            assert(chunk_wf(s, s.chunks[k]));
            assert(map_wf(s.chunks[k].map));
            assert forall|i: int| 0 <= i < s1.chunks.len() implies chunk_wf(
                s1,
                #[trigger] s1.chunks[i],
            ) by {
                if i < k {
                    assert(s1.chunks[i] == s.chunks[i]);
                    assert(chunk_wf(s, s.chunks[i]));
                } else {
                    assert(s1.chunks[i] == s.chunks[i + 1]);
                    assert(chunk_wf(s, s.chunks[i + 1]));
                }
            }
            assert forall|i: int| 0 <= i < s1.chunks.len() implies (#[trigger] s1.chunks[i]).id
                == s1.loaded[i] by {
                if i < k {
                    assert(s1.chunks[i] == s.chunks[i] && s1.loaded[i] == s.loaded[i]);
                } else {
                    assert(s1.chunks[i] == s.chunks[i + 1] && s1.loaded[i] == s.loaded[i + 1]);
                }
            }
            assert forall|i: int, j: int| 0 <= i < j < s1.loaded.len() implies s1.loaded[i]
                != s1.loaded[j] by {
                let i0 = if i < k { i } else { i + 1 };
                let j0 = if j < k { j } else { j + 1 };
                assert(s1.loaded[i] == s.loaded[i0] && s1.loaded[j] == s.loaded[j0]);
            }
        },
    }
}

/// A search from `i` succeeds when some later position holds the id.
pub proof fn lemma_chunk_index_finds(chunks: Seq<ChunkV>, id: usize, i: int, k: int)
    requires
        0 <= i <= k < chunks.len(),
        chunks[k].id == id,
    ensures
        chunk_index_from(chunks, id, i) is Some,
    decreases chunks.len() - i,
{
    if chunks[i].id != id {
        lemma_chunk_index_finds(chunks, id, i + 1, k);
    }
}

/// Under the manager invariant, a resident id has a resident-list index.
pub proof fn lemma_resident_index(s: CmV, id: usize)
    requires
        cm_wf(s),
        resident(s, id),
    ensures
        chunk_index_model(s, id) is Some,
{
    let k = choose|k: int| 0 <= k < s.loaded.len() && s.loaded[k] == id;
    assert(s.chunks[k].id == id);
    lemma_chunk_index_finds(s.chunks, id, 0, k);
}

/// Under the manager invariant, an id without a resident-list index is not
/// resident.
pub proof fn lemma_unresident_no_index(s: CmV, id: usize, i: int)
    requires
        forall|j: int| 0 <= j < s.chunks.len() ==> (#[trigger] s.chunks[j]).id != id,
        0 <= i,
    ensures
        chunk_index_from(s.chunks, id, i) is None,
    decreases s.chunks.len() - i,
{
    if i < s.chunks.len() {
        lemma_unresident_no_index(s, id, i + 1);
    }
}

/// A successful resident-index search returns an in-range index holding the
/// id searched for.
pub proof fn lemma_chunk_index_bounds(chunks: Seq<ChunkV>, id: usize, i: int)
    requires
        chunk_index_from(chunks, id, i) is Some,
    ensures
        i <= chunk_index_from(chunks, id, i).unwrap() < chunks.len(),
        chunks[chunk_index_from(chunks, id, i).unwrap()].id == id,
    decreases chunks.len() - i,
{
    if 0 <= i < chunks.len() {
        if chunks[i].id == id {
        } else {
            lemma_chunk_index_bounds(chunks, id, i + 1);
        }
    }
}

} // verus!
