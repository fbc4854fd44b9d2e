//! Chunk streaming: coordinate translation, residency updates, the view
//! window, and the load/unload round trip.

use chunkworld::chunks::ChunkManager;
use chunkworld::tilemap::{MapData, MapInfo, MonsterSpawn, SpawnPoint, TileDef, TileType};
use chunkworld::monster::{ActiveMonster, LootData, Monster};
use chunkworld::world::{ChunkConfig, SpawnPosition, WorldConfig, WorldInfo};
use chunkworld::Vec2i;

fn open_map() -> MapData {
    // A 4 x 4 chunk map of walkable grass.
    let tile_types = vec![
        TileDef {
            key: '.',
            tile: TileType { name: "grass".to_string(), walkable: true, color: "green".to_string() },
        },
        TileDef {
            key: '#',
            tile: TileType { name: "wall".to_string(), walkable: false, color: "gray".to_string() },
        },
    ];
    let layout = vec![
        vec!['.', '.', '.', '.'],
        vec!['.', '.', '.', '.'],
        vec!['.', '.', '.', '.'],
        vec!['.', '.', '.', '.'],
    ];
    MapData {
        map_info: MapInfo {
            name: "open".to_string(),
            width: 4,
            height: 4,
            tile_size: 32,
            spawn_point: SpawnPoint { x: 1, y: 1 },
        },
        tile_types,
        layout,
        monster_spawns: None,
    }
}

fn grid_world(view_distance: u32) -> WorldConfig {
    // A 3 x 3 chunk grid; chunk id y * 3 + x sits at grid cell (x, y).
    let mut chunks = Vec::new();
    for y in 0..3usize {
        for x in 0..3usize {
            chunks.push(ChunkConfig {
                world_x: x,
                world_y: y,
                biome: "forest".to_string(),
                map_file: format!("chunk_{}_{}.yaml", x, y),
                name: format!("Chunk {},{}", x, y),
            });
        }
    }
    WorldConfig {
        world_info: WorldInfo {
            name: "grid".to_string(),
            chunk_size: 4,
            tile_size: 32,
            chunks_x: 3,
            chunks_y: 3,
            view_distance,
        },
        chunk_layout: vec![vec![0, 1, 2], vec![3, 4, 5], vec![6, 7, 8]],
        chunks,
        spawn_chunk: 4,
        spawn_position: SpawnPosition { x: 1, y: 1 },
    }
}

fn manager_with_all_maps(view_distance: u32) -> ChunkManager {
    let mut cm = ChunkManager::new(grid_world(view_distance));
    for id in 0..9usize {
        assert!(cm.set_chunk_map(id, open_map()));
    }
    cm
}

fn goblin() -> Monster {
    Monster {
        name: "Forest Goblin".to_string(),
        species: "goblin".to_string(),
        hp: 30,
        attack: 10,
        speed: 2,
        color: "green".to_string(),
        behavior: vec!["aggressive".to_string()],
        loot: LootData { gold: 5, item_chance: 100 },
    }
}

fn sorted(mut v: Vec<usize>) -> Vec<usize> {
    v.sort();
    v
}

#[test]
fn chunk_coords_roundtrip_on_corners() {
    let cm = manager_with_all_maps(1);
    // chunk pixel size is 4 * 32 = 128
    for cx in 0..3usize {
        for cy in 0..3usize {
            let corner = cm.chunk_to_world_coords(cx, cy);
            assert_eq!(corner, Vec2i { x: (cx as i32) * 128, y: (cy as i32) * 128 });
            assert_eq!(cm.world_to_chunk_coords(corner), (cx, cy));
        }
    }
    // A point on the exact boundary belongs to the higher-index chunk.
    assert_eq!(cm.world_to_chunk_coords(Vec2i { x: 128, y: 0 }), (1, 0));
    assert_eq!(cm.world_to_chunk_coords(Vec2i { x: 127, y: 0 }), (0, 0));
}

#[test]
fn chunk_id_at_position_and_out_of_bounds() {
    let cm = manager_with_all_maps(1);
    assert_eq!(cm.get_chunk_at_position(Vec2i { x: 0, y: 0 }), Some(0));
    assert_eq!(cm.get_chunk_at_position(Vec2i { x: 200, y: 200 }), Some(4));
    assert_eq!(cm.get_chunk_at_position(Vec2i { x: 300, y: 70 }), Some(2));
    assert_eq!(cm.get_chunk_at_position(Vec2i { x: 500, y: 0 }), None);
    assert_eq!(cm.get_chunk_at_position(Vec2i { x: 0, y: 384 }), None);
}

#[test]
fn update_loads_exact_window_in_centre() {
    let mut cm = manager_with_all_maps(1);
    let templates = vec![goblin()];
    cm.update_loaded_chunks(Vec2i { x: 200, y: 200 }, &templates);
    assert_eq!(sorted(cm.get_loaded_chunk_ids()), vec![0, 1, 2, 3, 4, 5, 6, 7, 8]);
}

#[test]
fn update_clips_window_at_grid_corner() {
    let mut cm = manager_with_all_maps(1);
    let templates = vec![goblin()];
    cm.update_loaded_chunks(Vec2i { x: 10, y: 10 }, &templates);
    assert_eq!(sorted(cm.get_loaded_chunk_ids()), vec![0, 1, 3, 4]);
}

#[test]
fn update_unloads_chunks_leaving_window() {
    let mut cm = manager_with_all_maps(1);
    let templates = vec![goblin()];
    cm.update_loaded_chunks(Vec2i { x: 10, y: 10 }, &templates);
    assert_eq!(sorted(cm.get_loaded_chunk_ids()), vec![0, 1, 3, 4]);
    cm.update_loaded_chunks(Vec2i { x: 380, y: 380 }, &templates);
    assert_eq!(sorted(cm.get_loaded_chunk_ids()), vec![4, 5, 7, 8]);
}

#[test]
fn update_is_idempotent_from_same_position() {
    let mut cm = manager_with_all_maps(1);
    let templates = vec![goblin()];
    let pos = Vec2i { x: 200, y: 200 };
    cm.update_loaded_chunks(pos, &templates);
    let loaded_once = cm.get_loaded_chunk_ids();
    cm.update_loaded_chunks(pos, &templates);
    let loaded_twice = cm.get_loaded_chunk_ids();
    assert_eq!(loaded_once, loaded_twice);
    // Walkability answers are unchanged as well.
    for x in [0, 50, 130, 260, 380] {
        for y in [0, 50, 130, 260, 380] {
            let p = Vec2i { x, y };
            cm.update_loaded_chunks(pos, &templates);
            assert!(cm.is_position_walkable(p));
        }
    }
}

#[test]
fn missing_map_leaves_hole_and_is_retried() {
    let mut cm = ChunkManager::new(grid_world(1));
    for id in 0..9usize {
        if id != 5 {
            assert!(cm.set_chunk_map(id, open_map()));
        }
    }
    let templates = vec![goblin()];
    cm.update_loaded_chunks(Vec2i { x: 200, y: 200 }, &templates);
    assert_eq!(sorted(cm.get_loaded_chunk_ids()), vec![0, 1, 2, 3, 4, 6, 7, 8]);
    // The hole persists across updates while the map stays missing.
    cm.update_loaded_chunks(Vec2i { x: 200, y: 200 }, &templates);
    assert_eq!(sorted(cm.get_loaded_chunk_ids()), vec![0, 1, 2, 3, 4, 6, 7, 8]);
    // Providing the map lets the retry succeed.
    assert!(cm.set_chunk_map(5, open_map()));
    cm.update_loaded_chunks(Vec2i { x: 200, y: 200 }, &templates);
    assert_eq!(sorted(cm.get_loaded_chunk_ids()), vec![0, 1, 2, 3, 4, 5, 6, 7, 8]);
}

#[test]
fn view_distance_zero_keeps_only_centre_chunk() {
    let mut cm = manager_with_all_maps(0);
    let templates = vec![goblin()];
    // Player anywhere inside the centre chunk: cell (1, 1), units [128, 256).
    for (x, y) in [(130, 130), (200, 180), (250, 255), (128, 128)] {
        cm.update_loaded_chunks(Vec2i { x, y }, &templates);
        assert_eq!(cm.get_loaded_chunk_ids(), vec![4]);
    }
}

#[test]
fn initialize_loads_spawn_chunk_and_sets_current() {
    let mut cm = manager_with_all_maps(1);
    let templates = vec![goblin()];
    cm.initialize(&templates);
    assert_eq!(cm.get_loaded_chunk_ids(), vec![4]);
    assert_eq!(cm.current_chunk, Some(4));
}

#[test]
fn load_then_unload_restores_resident_state() {
    let mut cm = manager_with_all_maps(1);
    let templates = vec![goblin()];
    cm.load_chunk(4, &templates);
    assert_eq!(cm.get_loaded_chunk_ids(), vec![4]);
    let before = cm.get_loaded_chunk_ids();
    cm.load_chunk(7, &templates);
    assert_eq!(cm.get_loaded_chunk_ids(), vec![4, 7]);
    assert!(cm.get_chunk(7).is_some());
    cm.unload_chunk(7);
    assert_eq!(cm.get_loaded_chunk_ids(), before);
    assert!(cm.get_chunk(7).is_none());
    assert!(cm.get_chunk(4).is_some());
    // The map returned to its slot: the chunk loads again.
    cm.load_chunk(7, &templates);
    assert_eq!(cm.get_loaded_chunk_ids(), vec![4, 7]);
}

#[test]
fn load_chunk_is_a_no_op_when_already_resident() {
    let mut cm = manager_with_all_maps(1);
    let templates = vec![goblin()];
    cm.load_chunk(4, &templates);
    cm.load_chunk(4, &templates);
    assert_eq!(cm.get_loaded_chunk_ids(), vec![4]);
}

#[test]
fn unload_chunk_is_a_no_op_when_not_resident() {
    let mut cm = manager_with_all_maps(1);
    cm.unload_chunk(3);
    assert_eq!(cm.get_loaded_chunk_ids(), Vec::<usize>::new());
}

#[test]
fn walkability_needs_resident_chunk() {
    let mut cm = manager_with_all_maps(1);
    let templates = vec![goblin()];
    let p = Vec2i { x: 10, y: 10 };
    assert!(!cm.is_position_walkable(p));
    cm.load_chunk(0, &templates);
    assert!(cm.is_position_walkable(p));
    // Outside the grid stays unwalkable.
    assert!(!cm.is_position_walkable(Vec2i { x: 500, y: 10 }));
    // Negative coordinates saturate into cell zero, as a float-to-index
    // cast does, so they land on chunk 0's tile (0, 0).
    assert!(cm.is_position_walkable(Vec2i { x: -10, y: -10 }));
}

#[test]
fn spawned_monsters_stand_at_scaled_offsets() {
    let mut cm = ChunkManager::new(grid_world(1));
    let mut map = open_map();
    map.monster_spawns = Some(vec![
        MonsterSpawn { x: 1, y: 2, monster_type: "Forest Goblin".to_string() },
        MonsterSpawn { x: 3, y: 3, monster_type: "Nobody".to_string() },
    ]);
    assert!(cm.set_chunk_map(4, map));
    let templates = vec![goblin()];
    cm.load_chunk(4, &templates);
    let chunk = cm.get_chunk(4).expect("chunk 4 resident");
    // The unknown spawn name is dropped silently.
    assert_eq!(chunk.active_monsters.len(), 1);
    let m: &ActiveMonster = &chunk.active_monsters[0];
    // Chunk 4 sits at grid cell (1, 1): origin (128, 128); tile size 32.
    assert_eq!(m.position, Vec2i { x: 128 + 32, y: 128 + 64 });
    assert_eq!(m.current_hp, 30);
    assert!(!m.is_dead);
    assert_eq!(m.data.name, "Forest Goblin");
}

#[test]
fn set_chunk_map_rejects_bad_maps_and_bad_ids() {
    let mut cm = ChunkManager::new(grid_world(1));
    let mut bad = open_map();
    bad.map_info.tile_size = 0;
    assert!(!cm.set_chunk_map(0, bad));
    assert!(!cm.set_chunk_map(99, open_map()));
    assert!(cm.set_chunk_map(0, open_map()));
}

#[test]
fn get_chunk_mut_exposes_combat_state() {
    let mut cm = ChunkManager::new(grid_world(1));
    let mut map = open_map();
    map.monster_spawns = Some(vec![MonsterSpawn {
        x: 1,
        y: 1,
        monster_type: "Forest Goblin".to_string(),
    }]);
    assert!(cm.set_chunk_map(4, map));
    let templates = vec![goblin()];
    cm.load_chunk(4, &templates);
    let chunk = cm.get_chunk_mut(4);
    chunk.active_monsters[0].current_hp = 7;
    assert_eq!(cm.get_chunk(4).unwrap().active_monsters[0].current_hp, 7);
}
