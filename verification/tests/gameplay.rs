//! Movement resolution against walls, contact combat, attack presses, and
//! monster respawn.

use chunkworld::chunks::ChunkManager;
use chunkworld::combat::{check_collision, monster_combat_tick, RESPAWN_TIME_MS};
use chunkworld::monster::{ActiveMonster, LootData, Monster};
use chunkworld::movement::{resolve_monster_move, resolve_player_move};
use chunkworld::player::{Player, ATTACK_COOLDOWN_MS};
use chunkworld::tilemap::{MapData, MapInfo, SpawnPoint, TileDef, TileType};
use chunkworld::world::{ChunkConfig, SpawnPosition, WorldConfig, WorldInfo};
use chunkworld::Vec2i;

fn map_from_rows(rows: &[&str]) -> MapData {
    let tile_types = vec![
        TileDef {
            key: '.',
            tile: TileType { name: "grass".to_string(), walkable: true, color: "green".to_string() },
        },
        TileDef {
            key: '#',
            tile: TileType { name: "wall".to_string(), walkable: false, color: "gray".to_string() },
        },
    ];
    let layout: Vec<Vec<char>> = rows.iter().map(|r| r.chars().collect()).collect();
    MapData {
        map_info: MapInfo {
            name: "test".to_string(),
            width: rows[0].len(),
            height: rows.len(),
            tile_size: 32,
            spawn_point: SpawnPoint { x: 1, y: 1 },
        },
        tile_types,
        layout,
        monster_spawns: None,
    }
}

fn single_chunk_world() -> WorldConfig {
    WorldConfig {
        world_info: WorldInfo {
            name: "one".to_string(),
            chunk_size: 4,
            tile_size: 32,
            chunks_x: 1,
            chunks_y: 1,
            view_distance: 0,
        },
        chunk_layout: vec![vec![0]],
        chunks: vec![ChunkConfig {
            world_x: 0,
            world_y: 0,
            biome: "forest".to_string(),
            map_file: "one.yaml".to_string(),
            name: "One".to_string(),
        }],
        spawn_chunk: 0,
        spawn_position: SpawnPosition { x: 1, y: 1 },
    }
}

fn manager_with(rows: &[&str]) -> ChunkManager {
    let mut cm = ChunkManager::new(single_chunk_world());
    assert!(cm.set_chunk_map(0, map_from_rows(rows)));
    cm.load_chunk(0, &Vec::new());
    cm
}

fn goblin() -> Monster {
    Monster {
        name: "Forest Goblin".to_string(),
        species: "goblin".to_string(),
        hp: 30,
        attack: 10,
        speed: 2,
        color: "green".to_string(),
        behavior: vec!["aggressive".to_string()],
        loot: LootData { gold: 5, item_chance: 100 },
    }
}

fn player_at(pos: Vec2i) -> Player {
    Player {
        position: pos,
        hp: 100,
        max_hp: 100,
        attack: 15,
        radius: 8,
        attack_cooldown: 0,
        is_attacking: false,
        facing_left: false,
        animation_timer: 0,
    }
}

fn monster_at(pos: Vec2i) -> ActiveMonster {
    ActiveMonster { data: goblin(), position: pos, current_hp: 30, is_dead: false, respawn_timer: 0 }
}

#[test]
fn walled_room_blocks_every_crossing_move() {
    // A fully walled room with a single open tile at (1, 1).  The player's
    // box fills the tile almost fully, so every move crosses a wall corner.
    let cm = manager_with(&["####", "#.##", "####", "####"]);
    let pos = Vec2i { x: 48, y: 48 };
    for (ix, iy, sx, sy) in [
        (1, 0, 16, 0),
        (-1, 0, -16, 0),
        (0, 1, 0, 16),
        (0, -1, 0, -16),
        (1, 1, 12, 12),
        (-1, 1, -12, 12),
        (1, -1, 12, -12),
        (-1, -1, -12, -12),
    ] {
        let r = resolve_player_move(
            &cm,
            pos,
            Vec2i { x: ix, y: iy },
            Vec2i { x: sx, y: sy },
            16,
            15,
        );
        assert_eq!(r, pos);
    }
}

#[test]
fn open_room_takes_full_diagonal() {
    let cm = manager_with(&["....", "....", "....", "...."]);
    let pos = Vec2i { x: 48, y: 48 };
    let r = resolve_player_move(&cm, pos, Vec2i { x: 1, y: 1 }, Vec2i { x: 12, y: 12 }, 16, 8);
    assert_eq!(r, Vec2i { x: 60, y: 60 });
}

#[test]
fn zero_input_means_no_movement() {
    let cm = manager_with(&["....", "....", "....", "...."]);
    let pos = Vec2i { x: 48, y: 48 };
    let r = resolve_player_move(&cm, pos, Vec2i { x: 0, y: 0 }, Vec2i { x: 0, y: 0 }, 16, 8);
    assert_eq!(r, pos);
}

#[test]
fn l_corner_diagonal_slides_along_open_axis() {
    // Wall on the diagonal neighbor (2, 2); both axis neighbors open.
    let cm = manager_with(&["....", "....", "..#.", "...."]);
    let pos = Vec2i { x: 48, y: 48 };
    // Diagonal into the corner: blocked as a whole, horizontal open.
    let r = resolve_player_move(&cm, pos, Vec2i { x: 1, y: 1 }, Vec2i { x: 32, y: 32 }, 45, 8);
    assert_eq!(r, Vec2i { x: 80, y: 48 });
}

#[test]
fn blocked_horizontal_slides_vertically() {
    // Walls directly right of the player's tile and right-below; below open.
    let cm = manager_with(&["....", ".#..", ".#..", "...."]);
    let pos = Vec2i { x: 16, y: 48 };
    let r = resolve_player_move(&cm, pos, Vec2i { x: 1, y: 1 }, Vec2i { x: 32, y: 32 }, 45, 8);
    assert_eq!(r, Vec2i { x: 16, y: 80 });
}

#[test]
fn monster_move_accepts_walkable_target() {
    let cm = manager_with(&["....", "....", "....", "...."]);
    let r = resolve_monster_move(&cm, Vec2i { x: 40, y: 40 }, Vec2i { x: 20, y: 10 });
    assert_eq!(r, Vec2i { x: 60, y: 50 });
}

#[test]
fn monster_move_slides_along_walls() {
    // Wall to the right of the monster's tile at (1, 1): tile (2, 1).
    let cm = manager_with(&["....", "..#.", "....", "...."]);
    let pos = Vec2i { x: 40, y: 40 };
    let r = resolve_monster_move(&cm, pos, Vec2i { x: 40, y: 10 });
    // Horizontal lands in the wall tile, vertical passes from the old x.
    assert_eq!(r, Vec2i { x: 40, y: 50 });
}

#[test]
fn collision_is_strict_euclidean_distance() {
    let a = Vec2i { x: 0, y: 0 };
    let b = Vec2i { x: 3, y: 4 };
    // distance is exactly 5
    assert!(!check_collision(a, 2, b, 2));
    assert!(!check_collision(a, 2, b, 3));
    assert!(check_collision(a, 3, b, 3));
    assert!(check_collision(a, 5, b, 1));
}

#[test]
fn two_attack_presses_kill_a_thirty_hp_monster_once() {
    let mut player = player_at(Vec2i { x: 100, y: 100 });
    let mut monster = monster_at(Vec2i { x: 104, y: 100 });
    // First press.
    assert!(player.try_start_attack());
    let gold1 = monster_combat_tick(&mut player, &mut monster, 15, 16);
    assert_eq!(monster.current_hp, 15);
    assert!(!monster.is_dead);
    assert_eq!(gold1, 0);
    assert!(!player.is_attacking);
    // Cooldown elapses; second press.
    player.tick_attack_cooldown(ATTACK_COOLDOWN_MS);
    assert!(player.try_start_attack());
    let gold2 = monster_combat_tick(&mut player, &mut monster, 15, 16);
    assert_eq!(monster.current_hp, 0);
    assert!(monster.is_dead);
    assert_eq!(monster.respawn_timer, RESPAWN_TIME_MS);
    assert_eq!(gold2, 5);
    // A further tick on the dead monster awards nothing more.
    let gold3 = monster_combat_tick(&mut player, &mut monster, 15, 16);
    assert_eq!(gold3, 0);
}

#[test]
fn contact_deals_one_damage_per_tick_and_only_on_contact() {
    let mut player = player_at(Vec2i { x: 100, y: 100 });
    let mut monster = monster_at(Vec2i { x: 104, y: 100 });
    monster_combat_tick(&mut player, &mut monster, 15, 16);
    monster_combat_tick(&mut player, &mut monster, 15, 16);
    assert_eq!(player.hp, 98);
    // Far away: no contact, no damage.
    let mut far = monster_at(Vec2i { x: 500, y: 500 });
    monster_combat_tick(&mut player, &mut far, 15, 16);
    assert_eq!(player.hp, 98);
    assert_eq!(far.current_hp, 30);
}

#[test]
fn attack_without_contact_is_not_consumed() {
    let mut player = player_at(Vec2i { x: 100, y: 100 });
    let mut far = monster_at(Vec2i { x: 500, y: 500 });
    assert!(player.try_start_attack());
    monster_combat_tick(&mut player, &mut far, 15, 16);
    assert!(player.is_attacking);
    assert_eq!(far.current_hp, 30);
}

#[test]
fn dead_monster_respawns_after_exactly_five_seconds() {
    let mut player = player_at(Vec2i { x: 0, y: 0 });
    let mut monster = monster_at(Vec2i { x: 500, y: 500 });
    monster.is_dead = true;
    monster.current_hp = 0;
    monster.respawn_timer = 5000;
    monster_combat_tick(&mut player, &mut monster, 15, 3000);
    assert!(monster.is_dead);
    assert_eq!(monster.respawn_timer, 2000);
    monster_combat_tick(&mut player, &mut monster, 15, 1999);
    assert!(monster.is_dead);
    assert_eq!(monster.respawn_timer, 1);
    monster_combat_tick(&mut player, &mut monster, 15, 1);
    assert!(!monster.is_dead);
    assert_eq!(monster.current_hp, 30);
    // Respawn happens in place: the position is preserved.
    assert_eq!(monster.position, Vec2i { x: 500, y: 500 });
}

#[test]
fn attack_cooldown_gates_presses() {
    let mut player = player_at(Vec2i { x: 0, y: 0 });
    assert!(player.try_start_attack());
    assert_eq!(player.attack_cooldown, ATTACK_COOLDOWN_MS);
    assert!(!player.try_start_attack());
    player.tick_attack_cooldown(200);
    assert!(!player.try_start_attack());
    player.tick_attack_cooldown(400);
    assert_eq!(player.attack_cooldown, 0);
    assert!(player.try_start_attack());
}

#[test]
fn manager_combat_and_monster_movement() {
    let mut cm = ChunkManager::new(single_chunk_world());
    let mut map = map_from_rows(&["....", "....", "....", "...."]);
    map.monster_spawns = Some(vec![chunkworld::tilemap::MonsterSpawn {
        x: 1,
        y: 1,
        monster_type: "Forest Goblin".to_string(),
    }]);
    assert!(cm.set_chunk_map(0, map));
    cm.load_chunk(0, &vec![goblin()]);
    // The monster stands at (32, 32); move it toward (52, 42).
    cm.move_monster(0, 0, Vec2i { x: 20, y: 10 });
    assert_eq!(cm.get_chunk(0).unwrap().active_monsters[0].position, Vec2i { x: 52, y: 42 });
    // The player stands on the monster and attacks.
    let mut player = player_at(Vec2i { x: 52, y: 42 });
    assert!(player.try_start_attack());
    let gold = cm.monster_combat_at(0, 0, &mut player, 15, 16);
    assert_eq!(gold, 0);
    assert_eq!(cm.get_chunk(0).unwrap().active_monsters[0].current_hp, 15);
    assert_eq!(player.hp, 99);
}

#[test]
fn chunk_combat_consumes_one_attack_across_monsters() {
    let mut cm = ChunkManager::new(single_chunk_world());
    let mut map = map_from_rows(&["....", "....", "....", "...."]);
    map.monster_spawns = Some(vec![
        chunkworld::tilemap::MonsterSpawn {
            x: 1,
            y: 1,
            monster_type: "Forest Goblin".to_string(),
        },
        chunkworld::tilemap::MonsterSpawn {
            x: 1,
            y: 1,
            monster_type: "Forest Goblin".to_string(),
        },
    ]);
    assert!(cm.set_chunk_map(0, map));
    cm.load_chunk(0, &vec![goblin()]);
    // Both monsters stand on the player; the raised attack flag lands one
    // hit on the first monster only, and each contact costs one hit point.
    let mut player = player_at(Vec2i { x: 32, y: 32 });
    assert!(player.try_start_attack());
    let gold = cm.resolve_chunk_combat(0, &mut player, 15, 16);
    assert_eq!(gold, 0);
    let chunk = cm.get_chunk(0).unwrap();
    assert_eq!(chunk.active_monsters[0].current_hp, 15);
    assert_eq!(chunk.active_monsters[1].current_hp, 30);
    assert_eq!(player.hp, 98);
    assert!(!player.is_attacking);
}

#[test]
fn aggressive_tag_is_recognised() {
    let g = goblin();
    assert!(g.is_aggressive());
    let mut calm = goblin();
    calm.behavior = vec!["calm".to_string()];
    assert!(!calm.is_aggressive());
}
