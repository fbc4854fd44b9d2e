//! Maps, tile lookups, the fallback map, hex colors, template search, and
//! the game configuration tables.

use chunkworld::biome::{
    BiomeConfig, BiomeEntry, GameConfig, GameInfo, ItemConfig, ItemEntry, PlayerConfig,
};
use chunkworld::color::parse_hex_color;
use chunkworld::geom::{cell_index_of, tile_to_world, world_to_tile};
use chunkworld::monster::{find_template, LootData, Monster};
use chunkworld::tilemap::{
    create_default_map, is_position_walkable, lookup_tile, MapData, MapInfo, SpawnPoint, TileDef,
    TileType,
};
use chunkworld::Vec2i;

fn two_tile_map() -> MapData {
    MapData {
        map_info: MapInfo {
            name: "mini".to_string(),
            width: 3,
            height: 2,
            tile_size: 10,
            spawn_point: SpawnPoint { x: 0, y: 0 },
        },
        tile_types: vec![
            TileDef {
                key: '.',
                tile: TileType {
                    name: "grass".to_string(),
                    walkable: true,
                    color: "green".to_string(),
                },
            },
            TileDef {
                key: '#',
                tile: TileType {
                    name: "wall".to_string(),
                    walkable: false,
                    color: "gray".to_string(),
                },
            },
        ],
        layout: vec![vec!['.', '#', '.'], vec!['#', '.', '?']],
        monster_spawns: None,
    }
}

#[test]
fn tile_lookup_finds_first_match_and_misses_unknown() {
    let map = two_tile_map();
    assert!(lookup_tile(&map, '.').unwrap().walkable);
    assert!(!lookup_tile(&map, '#').unwrap().walkable);
    assert!(lookup_tile(&map, '?').is_none());
}

#[test]
fn walkability_follows_tiles_and_defaults_to_impassable() {
    let map = two_tile_map();
    // tile (0,0) is grass, (1,0) wall, (2,1) unknown character.
    assert!(is_position_walkable(Vec2i { x: 5, y: 5 }, &map));
    assert!(!is_position_walkable(Vec2i { x: 15, y: 5 }, &map));
    assert!(is_position_walkable(Vec2i { x: 15, y: 15 }, &map));
    assert!(!is_position_walkable(Vec2i { x: 25, y: 15 }, &map));
    // Out of range in either axis is impassable.
    assert!(!is_position_walkable(Vec2i { x: 35, y: 5 }, &map));
    assert!(!is_position_walkable(Vec2i { x: 5, y: 25 }, &map));
}

#[test]
fn default_map_is_a_bordered_grass_room() {
    let map = create_default_map(32);
    assert_eq!(map.map_info.width, 20);
    assert_eq!(map.map_info.height, 15);
    assert_eq!(map.map_info.tile_size, 32);
    assert_eq!(map.map_info.spawn_point, SpawnPoint { x: 10, y: 7 });
    assert_eq!(map.layout.len(), 15);
    for row in &map.layout {
        assert_eq!(row.len(), 20);
        assert_eq!(row[0], '#');
        assert_eq!(row[19], '#');
    }
    assert!(map.layout[0].iter().all(|c| *c == '#'));
    assert!(map.layout[14].iter().all(|c| *c == '#'));
    assert_eq!(map.layout[7][10], '.');
    assert!(!is_position_walkable(Vec2i { x: 0, y: 0 }, &map));
    assert!(is_position_walkable(Vec2i { x: 10 * 32 + 16, y: 7 * 32 + 16 }, &map));
}

#[test]
fn cell_indexing_truncates_and_saturates() {
    assert_eq!(cell_index_of(0, 32), 0);
    assert_eq!(cell_index_of(31, 32), 0);
    assert_eq!(cell_index_of(32, 32), 1);
    assert_eq!(cell_index_of(95, 32), 2);
    assert_eq!(cell_index_of(-5, 32), 0);
    assert_eq!(cell_index_of(-100, 32), 0);
}

#[test]
fn tile_world_roundtrip_hits_tile_centres() {
    let p = tile_to_world(3, 5, 32);
    assert_eq!(p, Vec2i { x: 3 * 32 + 16, y: 5 * 32 + 16 });
    assert_eq!(world_to_tile(p, 32), (3, 5));
}

#[test]
fn hex_colors_parse_exactly() {
    assert_eq!(parse_hex_color("#ff8000"), Some((255, 128, 0)));
    assert_eq!(parse_hex_color("#000000"), Some((0, 0, 0)));
    assert_eq!(parse_hex_color("#FFFFFF"), Some((255, 255, 255)));
    assert_eq!(parse_hex_color("#1a2B3c"), Some((26, 43, 60)));
    assert_eq!(parse_hex_color("red"), None);
    assert_eq!(parse_hex_color("#ff80"), None);
    assert_eq!(parse_hex_color("#ff80001"), None);
    assert_eq!(parse_hex_color("#ggff00"), None);
    assert_eq!(parse_hex_color(""), None);
}

#[test]
fn template_search_matches_names_exactly() {
    let templates = vec![
        Monster {
            name: "Wolf".to_string(),
            species: "wolf".to_string(),
            hp: 40,
            attack: 12,
            speed: 3,
            color: "gray".to_string(),
            behavior: vec!["aggressive".to_string()],
            loot: LootData { gold: 8, item_chance: 200 },
        },
        Monster {
            name: "Forest Goblin".to_string(),
            species: "goblin".to_string(),
            hp: 30,
            attack: 10,
            speed: 2,
            color: "green".to_string(),
            behavior: vec![],
            loot: LootData { gold: 5, item_chance: 100 },
        },
    ];
    let found = find_template(&templates, &"Forest Goblin".to_string()).unwrap();
    assert_eq!(found.hp, 30);
    assert!(find_template(&templates, &"forest goblin".to_string()).is_none());
    assert!(find_template(&templates, &"Slime".to_string()).is_none());
}

#[test]
fn game_config_lookups() {
    let cfg = GameConfig {
        game_info: GameInfo {
            name: "RPG".to_string(),
            version: "1.0".to_string(),
            description: "test".to_string(),
        },
        biomes: vec![
            BiomeEntry {
                key: "forest".to_string(),
                config: BiomeConfig {
                    name: "Forest".to_string(),
                    map_file: "forest.yaml".to_string(),
                    monster_file: "forest_monsters.yaml".to_string(),
                    sprite_file: "forest_sprites.json".to_string(),
                    music: "calm".to_string(),
                    ambient_color: "#103010".to_string(),
                    weather: vec!["rain".to_string()],
                },
            },
            BiomeEntry {
                key: "desert".to_string(),
                config: BiomeConfig {
                    name: "Desert".to_string(),
                    map_file: "desert.yaml".to_string(),
                    monster_file: "desert_monsters.yaml".to_string(),
                    sprite_file: "desert_sprites.json".to_string(),
                    music: "dry".to_string(),
                    ambient_color: "#a08030".to_string(),
                    weather: vec![],
                },
            },
        ],
        starting_biome: "forest".to_string(),
        player_config: PlayerConfig {
            starting_hp: 100,
            starting_attack: 15,
            level_up_hp_bonus: 10,
            level_up_attack_bonus: 2,
        },
        items: vec![ItemEntry {
            key: "potion".to_string(),
            config: ItemConfig {
                name: "Potion".to_string(),
                item_type: "consumable".to_string(),
                effect: Some("heal".to_string()),
                value: Some(30),
                attack_bonus: None,
                defense_bonus: None,
                price: 10,
            },
        }],
    };
    assert_eq!(cfg.find_biome(&"desert".to_string()).unwrap().name, "Desert");
    assert!(cfg.find_biome(&"tundra".to_string()).is_none());
    assert_eq!(cfg.starting_biome_config().unwrap().name, "Forest");
    assert_eq!(cfg.find_item(&"potion".to_string()).unwrap().price, 10);
    assert!(cfg.find_item(&"sword".to_string()).is_none());
}
