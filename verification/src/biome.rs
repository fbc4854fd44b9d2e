//! The game-level configuration: global info, one entry per biome, the
//! starting biome, player progression numbers, and the item table.  Keyed
//! lookups scan the entry lists in order; the first matching key wins.

use vstd::prelude::*;

verus! {

/// Global facts about the game.
#[derive(Debug, Clone)]
pub struct GameInfo {
    pub name: String,
    pub version: String,
    pub description: String,
}

/// One biome: its display name, the files it is built from, and ambience.
#[derive(Debug, Clone)]
pub struct BiomeConfig {
    pub name: String,
    pub map_file: String,
    pub monster_file: String,
    pub sprite_file: String,
    pub music: String,
    pub ambient_color: String,
    pub weather: Vec<String>,
}

/// The player's starting stats and level-up bonuses.
#[derive(Debug, Clone, Copy, PartialEq, Eq, Structural)]
pub struct PlayerConfig {
    pub starting_hp: i32,
    pub starting_attack: i32,
    pub level_up_hp_bonus: i32,
    pub level_up_attack_bonus: i32,
}

/// One purchasable or droppable item.
#[derive(Debug, Clone)]
pub struct ItemConfig {
    pub name: String,
    pub item_type: String,
    pub effect: Option<String>,
    pub value: Option<i32>,
    pub attack_bonus: Option<i32>,
    pub defense_bonus: Option<i32>,
    pub price: i32,
}

/// A biome table entry: the biome's key and its configuration.
#[derive(Debug, Clone)]
pub struct BiomeEntry {
    pub key: String,
    pub config: BiomeConfig,
}

/// An item table entry: the item's key and its configuration.
#[derive(Debug, Clone)]
pub struct ItemEntry {
    pub key: String,
    pub config: ItemConfig,
}

/// The whole game configuration, loaded once.
#[derive(Debug, Clone)]
pub struct GameConfig {
    pub game_info: GameInfo,
    pub biomes: Vec<BiomeEntry>,
    pub starting_biome: String,
    pub player_config: PlayerConfig,
    pub items: Vec<ItemEntry>,
}

/// The first biome entry whose key equals `key`, scanning from `i`.
pub open spec fn biome_lookup_from(entries: Seq<BiomeEntry>, key: Seq<char>, i: int) -> Option<
    BiomeConfig,
>
    decreases entries.len() - i,
{
    if i < 0 || i >= entries.len() {
        None
    } else if entries[i].key@ == key {
        Some(entries[i].config)
    } else {
        biome_lookup_from(entries, key, i + 1)
    }
}

pub open spec fn biome_lookup(entries: Seq<BiomeEntry>, key: Seq<char>) -> Option<BiomeConfig> {
    biome_lookup_from(entries, key, 0)
}

/// The first item entry whose key equals `key`, scanning from `i`.
pub open spec fn item_lookup_from(entries: Seq<ItemEntry>, key: Seq<char>, i: int) -> Option<
    ItemConfig,
>
    decreases entries.len() - i,
{
    if i < 0 || i >= entries.len() {
        None
    } else if entries[i].key@ == key {
        Some(entries[i].config)
    } else {
        item_lookup_from(entries, key, i + 1)
    }
}

pub open spec fn item_lookup(entries: Seq<ItemEntry>, key: Seq<char>) -> Option<ItemConfig> {
    item_lookup_from(entries, key, 0)
}

impl GameConfig {
    /// The biome configured under `key`, or `None` when no biome has that
    /// key.
    pub fn find_biome<'a>(&'a self, key: &String) -> (r: Option<&'a BiomeConfig>)
        ensures
            match r {
                Some(c) => biome_lookup(self.biomes@, key@) == Some(*c),
                None => biome_lookup(self.biomes@, key@) is None,
            },
    {
        let n = self.biomes.len();
        let mut i: usize = 0;
        while i < n
            invariant
                i <= n,
                n == self.biomes@.len(),
                biome_lookup(self.biomes@, key@) == biome_lookup_from(
                    self.biomes@,
                    key@,
                    i as int,
                ),
            decreases n - i,
        {
            if self.biomes[i].key == *key {
                return Some(&self.biomes[i].config);
            }
            i = i + 1;
        }
        None
    }

    /// The biome the game starts in, or `None` when the configured starting
    /// key names no biome.
    pub fn starting_biome_config<'a>(&'a self) -> (r: Option<&'a BiomeConfig>)
        ensures
            match r {
                Some(c) => biome_lookup(self.biomes@, self.starting_biome@) == Some(*c),
                None => biome_lookup(self.biomes@, self.starting_biome@) is None,
            },
    {
        let n = self.biomes.len();
        let mut i: usize = 0;
        while i < n
            invariant
                i <= n,
                n == self.biomes@.len(),
                biome_lookup(self.biomes@, self.starting_biome@) == biome_lookup_from(
                    self.biomes@,
                    self.starting_biome@,
                    i as int,
                ),
            decreases n - i,
        {
            if self.biomes[i].key == self.starting_biome {
                return Some(&self.biomes[i].config);
            }
            i = i + 1;
        }
        None
    }

    /// The item configured under `key`, or `None` when no item has that
    /// key.
    pub fn find_item<'a>(&'a self, key: &String) -> (r: Option<&'a ItemConfig>)
        ensures
            match r {
                Some(c) => item_lookup(self.items@, key@) == Some(*c),
                None => item_lookup(self.items@, key@) is None,
            },
    {
        let n = self.items.len();
        let mut i: usize = 0;
        while i < n
            invariant
                i <= n,
                n == self.items@.len(),
                item_lookup(self.items@, key@) == item_lookup_from(self.items@, key@, i as int),
            decreases n - i,
        {
            if self.items[i].key == *key {
                return Some(&self.items[i].config);
            }
            i = i + 1;
        }
        None
    }
}

} // verus!
