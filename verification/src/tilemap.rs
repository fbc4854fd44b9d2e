//! Per-chunk tile maps: tile metadata keyed by a single character, an ordered
//! grid of tile characters, optional monster spawn descriptors, and the
//! walkability query.  Unknown tile characters and out-of-range indices are
//! impassable by design, never an error.

use vstd::prelude::*;
use crate::geom::{cell_index, world_to_tile, Vec2i, V2};

verus! {

/// Bound on tile sizes and grid dimensions, so that every tile-coordinate
/// product stays far inside `i32`.
pub const MAP_DIM_LIMIT: usize = 1_000_000;

/// Bound on the world offset of a spawn point inside its chunk.
pub const SPAWN_OFFSET_LIMIT: i32 = 500_000_000;

/// Metadata of one kind of tile.
#[derive(Debug, Clone)]
pub struct TileType {
    pub name: String,
    pub walkable: bool,
    pub color: String,
}

pub struct TileTypeV {
    pub name: Seq<char>,
    pub walkable: bool,
    pub color: Seq<char>,
}

impl View for TileType {
    type V = TileTypeV;

    open spec fn view(&self) -> TileTypeV {
        TileTypeV { name: self.name@, walkable: self.walkable, color: self.color@ }
    }
}

/// One entry of the tile table: the character used in map layouts, and the
/// tile metadata it stands for.
#[derive(Debug, Clone)]
pub struct TileDef {
    pub key: char,
    pub tile: TileType,
}

pub struct TileDefV {
    pub key: char,
    pub tile: TileTypeV,
}

impl View for TileDef {
    type V = TileDefV;

    open spec fn view(&self) -> TileDefV {
        TileDefV { key: self.key, tile: self.tile@ }
    }
}

/// Where a monster of the named kind stands when its chunk loads, in tile
/// coordinates relative to the chunk's top-left corner.
#[derive(Debug, Clone)]
pub struct MonsterSpawn {
    pub x: i32,
    pub y: i32,
    pub monster_type: String,
}

pub struct MonsterSpawnV {
    pub x: int,
    pub y: int,
    pub monster_type: Seq<char>,
}

impl View for MonsterSpawn {
    type V = MonsterSpawnV;

    open spec fn view(&self) -> MonsterSpawnV {
        MonsterSpawnV { x: self.x as int, y: self.y as int, monster_type: self.monster_type@ }
    }
}

/// Where the player first appears on a map, in tile coordinates.
#[derive(Debug, Clone, Copy, PartialEq, Eq, Structural)]
pub struct SpawnPoint {
    pub x: i32,
    pub y: i32,
}

impl View for SpawnPoint {
    type V = V2;

    open spec fn view(&self) -> V2 {
        V2 { x: self.x as int, y: self.y as int }
    }
}

/// Fixed facts about a map: its display name, grid dimensions in tiles, the
/// side of a tile in world units, and the default spawn point (in tiles).
#[derive(Debug, Clone)]
pub struct MapInfo {
    pub name: String,
    pub width: usize,
    pub height: usize,
    pub tile_size: u32,
    pub spawn_point: SpawnPoint,
}

pub struct MapInfoV {
    pub name: Seq<char>,
    pub width: int,
    pub height: int,
    pub tile_size: int,
    pub spawn_point: V2,
}

impl View for MapInfo {
    type V = MapInfoV;

    open spec fn view(&self) -> MapInfoV {
        MapInfoV {
            name: self.name@,
            width: self.width as int,
            height: self.height as int,
            tile_size: self.tile_size as int,
            spawn_point: self.spawn_point@,
        }
    }
}

/// An immutable per-chunk map: tile table, row-major layout (one character
/// per tile), and the optional monster spawn list.
#[derive(Debug)]
pub struct MapData {
    pub map_info: MapInfo,
    pub tile_types: Vec<TileDef>,
    pub layout: Vec<Vec<char>>,
    pub monster_spawns: Option<Vec<MonsterSpawn>>,
}

#[verifier::ext_equal]
pub struct MapV {
    pub info: MapInfoV,
    pub tiles: Seq<TileDefV>,
    pub layout: Seq<Seq<char>>,
    pub spawns: Option<Seq<MonsterSpawnV>>,
}

impl View for MapData {
    type V = MapV;

    open spec fn view(&self) -> MapV {
        MapV {
            info: self.map_info@,
            tiles: self.tile_types@.map_values(|d: TileDef| d@),
            layout: self.layout@.map_values(|r: Vec<char>| r@),
            spawns: match self.monster_spawns {
                Some(v) => Some(v@.map_values(|s: MonsterSpawn| s@)),
                None => None,
            },
        }
    }
}

/// The tile table entry for `ch`, scanning the table in order: the first
/// matching key wins, as in a keyed lookup with unique keys.
pub open spec fn tile_lookup_from(tiles: Seq<TileDefV>, ch: char, i: int) -> Option<TileTypeV>
    decreases tiles.len() - i,
{
    if i < 0 || i >= tiles.len() {
        None
    } else if tiles[i].key == ch {
        Some(tiles[i].tile)
    } else {
        tile_lookup_from(tiles, ch, i + 1)
    }
}

pub open spec fn tile_lookup(tiles: Seq<TileDefV>, ch: char) -> Option<TileTypeV> {
    tile_lookup_from(tiles, ch, 0)
}

/// Machine-limit side conditions on a map: dimensions bounded, tiles at
/// least one unit wide, spawn offsets that stay inside the coordinate range.
pub open spec fn map_wf(m: MapV) -> bool {
    &&& 1 <= m.info.tile_size <= MAP_DIM_LIMIT
    &&& m.info.width <= MAP_DIM_LIMIT
    &&& m.info.height <= MAP_DIM_LIMIT
    &&& m.layout.len() <= MAP_DIM_LIMIT
    &&& match m.spawns {
        Some(list) => list.len() <= MAP_DIM_LIMIT && forall|i: int|
            0 <= i < list.len() ==> {
                &&& 0 <= (#[trigger] list[i]).x
                &&& 0 <= list[i].y
                &&& list[i].x * m.info.tile_size <= SPAWN_OFFSET_LIMIT
                &&& list[i].y * m.info.tile_size <= SPAWN_OFFSET_LIMIT
            },
        None => true,
    }
}

impl MapData {
    pub open spec fn wf(&self) -> bool {
        map_wf(self@)
    }
}

/// A spawn descriptor that breaks one of the spawn-side conditions refutes
/// `map_wf`.
proof fn lemma_spawn_violation(m: MapV, i: int)
    requires
        m.spawns is Some,
        0 <= i < m.spawns.unwrap().len(),
        !({
            &&& 0 <= m.spawns.unwrap()[i].x
            &&& 0 <= m.spawns.unwrap()[i].y
            &&& m.spawns.unwrap()[i].x * m.info.tile_size <= SPAWN_OFFSET_LIMIT
            &&& m.spawns.unwrap()[i].y * m.info.tile_size <= SPAWN_OFFSET_LIMIT
        }),
    ensures
        !map_wf(m),
{
    if map_wf(m) {
        let list = m.spawns.unwrap();
        assert(0 <= list[i].x && 0 <= list[i].y && list[i].x * m.info.tile_size
            <= SPAWN_OFFSET_LIMIT && list[i].y * m.info.tile_size <= SPAWN_OFFSET_LIMIT);
    }
}

/// Whether the tile under world-local position `pos` lets an actor stand on
/// it.  Out-of-range indices and unknown tile characters are impassable.
pub open spec fn walkable_at(m: MapV, pos: V2) -> bool {
    let tx = cell_index(pos.x, m.info.tile_size);
    let ty = cell_index(pos.y, m.info.tile_size);
    &&& ty < m.layout.len()
    &&& tx < m.info.width
    &&& tx < m.layout[ty].len()
    &&& match tile_lookup(m.tiles, m.layout[ty][tx]) {
        Some(t) => t.walkable,
        None => false,
    }
}

/// The tile table entry for `ch`, or `None` when the map does not know the
/// character.
pub fn lookup_tile<'a>(map_data: &'a MapData, ch: char) -> (r: Option<&'a TileType>)
    ensures
        match r {
            Some(t) => tile_lookup(map_data@.tiles, ch) == Some(t@),
            None => tile_lookup(map_data@.tiles, ch) is None,
        },
{
    let n = map_data.tile_types.len();
    let mut i: usize = 0;
    while i < n
        invariant
            0 <= i <= n,
            n == map_data.tile_types@.len(),
            tile_lookup(map_data@.tiles, ch) == tile_lookup_from(map_data@.tiles, ch, i as int),
        decreases n - i,
    {
        proof {
            assert(map_data@.tiles.len() == map_data.tile_types@.len());
            assert(map_data@.tiles[i as int] == map_data.tile_types@[i as int]@);
        }
        if map_data.tile_types[i].key == ch {
            return Some(&map_data.tile_types[i].tile);
        }
        i = i + 1;
    }
    None
}

/// Decides `map_wf` at run time, so that maps arriving from outside data
/// can be screened before they enter the manager.
pub fn check_map_wf(m: &MapData) -> (b: bool)
    ensures
        b == map_wf(m@),
{
    if m.map_info.tile_size < 1 || m.map_info.tile_size > MAP_DIM_LIMIT as u32 {
        return false;
    }
    if m.map_info.width > MAP_DIM_LIMIT || m.map_info.height > MAP_DIM_LIMIT {
        return false;
    }
    if m.layout.len() > MAP_DIM_LIMIT {
        return false;
    }
    match &m.monster_spawns {
        None => true,
        Some(list) => {
            let ghost lv = m@.spawns.unwrap();
            proof {
                assert(lv == list@.map_values(|s: MonsterSpawn| s@));
            }
            if list.len() > MAP_DIM_LIMIT {
                return false;
            }
            let ts = m.map_info.tile_size;
            let n = list.len();
            let mut i: usize = 0;
            while i < n
                invariant
                    i <= n,
                    n == list@.len(),
                    lv == list@.map_values(|s: MonsterSpawn| s@),
                    m@.spawns == Some(lv),
                    lv.len() == n,
                    1 <= ts <= MAP_DIM_LIMIT as u32,
                    ts == m.map_info.tile_size,
                    forall|j: int|
                        0 <= j < i ==> {
                            &&& 0 <= (#[trigger] lv[j]).x
                            &&& 0 <= lv[j].y
                            &&& lv[j].x * (ts as int) <= SPAWN_OFFSET_LIMIT
                            &&& lv[j].y * (ts as int) <= SPAWN_OFFSET_LIMIT
                        },
                decreases n - i,
            {
                proof {
                    assert(lv[i as int] == list@[i as int]@);
                }
                let sx = list[i].x;
                let sy = list[i].y;
                if sx < 0 || sy < 0 {
                    proof {
                        assert(lv[i as int].x < 0 || lv[i as int].y < 0);
                        lemma_spawn_violation(m@, i as int);
                    }
                    return false;
                }
                proof {
                    assert((sx as i64) * (ts as i64) == lv[i as int].x * (ts as int)
                        && 0 <= (sx as i64) * (ts as i64) <= 0x7fff_ffff * 0x10_0000i64)
                        by (nonlinear_arith)
                        requires
                            0 <= sx <= 0x7fff_ffff,
                            1 <= ts <= 0x10_0000,
                            lv[i as int].x == sx as int,
                    ;
                    assert((sy as i64) * (ts as i64) == lv[i as int].y * (ts as int)
                        && 0 <= (sy as i64) * (ts as i64) <= 0x7fff_ffff * 0x10_0000i64)
                        by (nonlinear_arith)
                        requires
                            0 <= sy <= 0x7fff_ffff,
                            1 <= ts <= 0x10_0000,
                            lv[i as int].y == sy as int,
                    ;
                }
                if (sx as i64) * (ts as i64) > SPAWN_OFFSET_LIMIT as i64 {
                    proof {
                        assert(lv[i as int].x * m@.info.tile_size > SPAWN_OFFSET_LIMIT as int);
                        lemma_spawn_violation(m@, i as int);
                    }
                    return false;
                }
                if (sy as i64) * (ts as i64) > SPAWN_OFFSET_LIMIT as i64 {
                    proof {
                        assert(lv[i as int].y * m@.info.tile_size > SPAWN_OFFSET_LIMIT as int);
                        lemma_spawn_violation(m@, i as int);
                    }
                    return false;
                }
                i = i + 1;
            }
            true
        },
    }
}

/// The tile character of the built-in fallback map: a 20 x 15 room of grass
/// enclosed by a one-tile wall.
pub open spec fn default_map_char(x: int, y: int) -> char {
    if y == 0 || y == 14 || x == 0 || x == 19 {
        '#'
    } else {
        '.'
    }
}

fn default_map_row(y: usize) -> (row: Vec<char>)
    requires
        y < 15,
    ensures
        row@.len() == 20,
        forall|x: int| 0 <= x < 20 ==> row@[x] == default_map_char(x, y as int),
{
    let mut row: Vec<char> = Vec::new();
    let mut x: usize = 0;
    while x < 20
        invariant
            x <= 20,
            y < 15,
            row@.len() == x,
            forall|j: int| 0 <= j < x ==> row@[j] == default_map_char(j, y as int),
        decreases 20 - x,
    {
        if y == 0 || y == 14 || x == 0 || x == 19 {
            row.push('#');
        } else {
            row.push('.');
        }
        x = x + 1;
    }
    row
}

/// The fallback map used when no map file could be read: a bordered 20 x 15
/// room of walkable grass, spawn point at tile (10, 7), no monster spawns.
pub fn create_default_map(tile_size: u32) -> (r: MapData)
    requires
        1 <= tile_size <= MAP_DIM_LIMIT as u32,
    ensures
        r.wf(),
        r@.info.width == 20,
        r@.info.height == 15,
        r@.info.tile_size == tile_size,
        r@.info.spawn_point == (V2 { x: 10, y: 7 }),
        r@.layout.len() == 15,
        forall|y: int| 0 <= y < 15 ==> (#[trigger] r@.layout[y]).len() == 20,
        forall|y: int, x: int|
            0 <= y < 15 && 0 <= x < 20 ==> #[trigger] r@.layout[y][x] == default_map_char(x, y),
        match tile_lookup(r@.tiles, '.') {
            Some(t) => t.walkable,
            None => false,
        },
        match tile_lookup(r@.tiles, '#') {
            Some(t) => !t.walkable,
            None => false,
        },
        r@.spawns is None,
{
    let mut tile_types: Vec<TileDef> = Vec::new();
    tile_types.push(
        TileDef {
            key: '.',
            tile: TileType { name: "grass".to_owned(), walkable: true, color: "green".to_owned() },
        },
    );
    tile_types.push(
        TileDef {
            key: '#',
            tile: TileType { name: "wall".to_owned(), walkable: false, color: "gray".to_owned() },
        },
    );
    let mut layout: Vec<Vec<char>> = Vec::new();
    let mut y: usize = 0;
    while y < 15
        invariant
            y <= 15,
            layout@.len() == y,
            forall|i: int| 0 <= i < y ==> (#[trigger] layout@[i])@.len() == 20,
            forall|i: int, x: int|
                0 <= i < y && 0 <= x < 20 ==> #[trigger] layout@[i]@[x] == default_map_char(x, i),
        decreases 15 - y,
    {
        layout.push(default_map_row(y));
        y = y + 1;
    }
    let r = MapData {
        map_info: MapInfo {
            name: "Default Map".to_owned(),
            width: 20,
            height: 15,
            tile_size,
            spawn_point: SpawnPoint { x: 10, y: 7 },
        },
        tile_types,
        layout,
        monster_spawns: None,
    };
    proof {
        assert(forall|y: int| 0 <= y < 15 ==> (#[trigger] r@.layout[y]).len() == 20);
        assert(forall|y: int, x: int|
            0 <= y < 15 && 0 <= x < 20 ==> #[trigger] r@.layout[y][x] == default_map_char(x, y));
        assert(r@.tiles[0].key == '.');
        assert(r@.tiles[1].key == '#');
        assert(tile_lookup_from(r@.tiles, '#', 0) == tile_lookup_from(r@.tiles, '#', 1));
        assert(tile_lookup_from(r@.tiles, '#', 1) == Some(r@.tiles[1].tile));
    }
    r
}

/// The walkability query of a single map, `pos` being relative to the map's
/// own top-left corner.
pub fn is_position_walkable(pos: Vec2i, map_data: &MapData) -> (b: bool)
    requires
        map_data.wf(),
    ensures
        b == walkable_at(map_data@, pos@),
{
    let (tile_x, tile_y) = world_to_tile(pos, map_data.map_info.tile_size);
    if tile_y >= map_data.layout.len() || tile_x >= map_data.map_info.width {
        return false;
    }
    let row = &map_data.layout[tile_y];
    if tile_x >= row.len() {
        return false;
    }
    let ch = row[tile_x];
    match lookup_tile(map_data, ch) {
        Some(t) => t.walkable,
        None => false,
    }
}

} // verus!
