//! Monster species templates and live monster instances, and the spawn
//! resolver that turns a chunk's spawn descriptors into active monsters by
//! exact name match against the template list.

use vstd::prelude::*;
use crate::geom::{Vec2i, V2};
use crate::tilemap::{MonsterSpawn, MonsterSpawnV, SPAWN_OFFSET_LIMIT};

verus! {

/// Bound on every monster stat, so that stat arithmetic stays inside `i32`.
pub const STAT_LIMIT: i32 = 1_000_000;

/// What a dead monster leaves behind: a gold amount and an item-drop chance
/// in thousandths.
#[derive(Debug)]
pub struct LootData {
    pub gold: i32,
    pub item_chance: u32,
}

pub struct LootDataV {
    pub gold: int,
    pub item_chance: int,
}

impl View for LootData {
    type V = LootDataV;

    open spec fn view(&self) -> LootDataV {
        LootDataV { gold: self.gold as int, item_chance: self.item_chance as int }
    }
}

/// Static species data, loaded once per species.
#[derive(Debug)]
pub struct Monster {
    pub name: String,
    pub species: String,
    pub hp: i32,
    pub attack: i32,
    pub speed: u32,
    pub color: String,
    pub behavior: Vec<String>,
    pub loot: LootData,
}

pub struct MonsterV {
    pub name: Seq<char>,
    pub species: Seq<char>,
    pub hp: int,
    pub attack: int,
    pub speed: int,
    pub color: Seq<char>,
    pub behavior: Seq<Seq<char>>,
    pub loot: LootDataV,
}

impl View for Monster {
    type V = MonsterV;

    open spec fn view(&self) -> MonsterV {
        MonsterV {
            name: self.name@,
            species: self.species@,
            hp: self.hp as int,
            attack: self.attack as int,
            speed: self.speed as int,
            color: self.color@,
            behavior: self.behavior@.map_values(|b: String| b@),
            loot: self.loot@,
        }
    }
}

/// Machine-limit side conditions on a template's stats.
pub open spec fn template_wf(t: MonsterV) -> bool {
    &&& 0 <= t.hp <= STAT_LIMIT
    &&& 0 <= t.attack <= STAT_LIMIT
    &&& t.speed <= STAT_LIMIT
    &&& 0 <= t.loot.gold <= STAT_LIMIT
    &&& t.loot.item_chance <= 1000
}

/// Whether a template carries the aggressive behavior tag.
pub open spec fn is_aggressive_spec(t: MonsterV) -> bool {
    exists|i: int| 0 <= i < t.behavior.len() && t.behavior[i] == "aggressive"@
}

impl Monster {
    pub open spec fn wf(&self) -> bool {
        template_wf(self@)
    }

    /// Decides `template_wf` at run time, so that templates arriving from
    /// outside data can be screened before they are used to spawn.
    pub fn check_wf(&self) -> (b: bool)
        ensures
            b == template_wf(self@),
    {
        0 <= self.hp && self.hp <= STAT_LIMIT && 0 <= self.attack && self.attack <= STAT_LIMIT
            && self.speed <= STAT_LIMIT as u32 && 0 <= self.loot.gold && self.loot.gold
            <= STAT_LIMIT && self.loot.item_chance <= 1000
    }

    /// Whether this species chases the player: its behavior tags include
    /// "aggressive".
    pub fn is_aggressive(&self) -> (b: bool)
        ensures
            b == is_aggressive_spec(self@),
    {
        let tag: String = "aggressive".to_owned();
        let n = self.behavior.len();
        let mut i: usize = 0;
        while i < n
            invariant
                i <= n,
                n == self.behavior@.len(),
                tag@ == "aggressive"@,
                forall|j: int| 0 <= j < i ==> self@.behavior[j] != "aggressive"@,
            decreases n - i,
        {
            proof {
                assert(self@.behavior[i as int] == self.behavior@[i as int]@);
            }
            if self.behavior[i] == tag {
                return true;
            }
            i = i + 1;
        }
        false
    }
}

impl Clone for Monster {
    /// A clone of a template carries exactly the same data.
    fn clone(&self) -> (r: Monster)
        ensures
            r@ == self@,
    {
        let r = Monster {
            name: self.name.clone(),
            species: self.species.clone(),
            hp: self.hp,
            attack: self.attack,
            speed: self.speed,
            color: self.color.clone(),
            behavior: self.behavior.clone(),
            loot: LootData { gold: self.loot.gold, item_chance: self.loot.item_chance },
        };
        proof {
            assert forall|i: int| 0 <= i < self.behavior@.len() implies r.behavior@[i]
                == self.behavior@[i] by {
                assert(cloned::<String>(self.behavior@[i], r.behavior@[i]));
            }
            assert(r@.behavior =~= self@.behavior);
        }
        r
    }
}

/// A live monster: a copy of its species template plus mutable combat state.
#[derive(Debug)]
pub struct ActiveMonster {
    pub data: Monster,
    pub position: Vec2i,
    pub current_hp: i32,
    pub is_dead: bool,
    pub respawn_timer: u32,
}

pub struct ActiveMonsterV {
    pub data: MonsterV,
    pub position: V2,
    pub current_hp: int,
    pub is_dead: bool,
    pub respawn_timer: int,
}

impl View for ActiveMonster {
    type V = ActiveMonsterV;

    open spec fn view(&self) -> ActiveMonsterV {
        ActiveMonsterV {
            data: self.data@,
            position: self.position@,
            current_hp: self.current_hp as int,
            is_dead: self.is_dead,
            respawn_timer: self.respawn_timer as int,
        }
    }
}

/// A live monster is well formed when its template is, and while it is alive
/// its hit points sit between zero and the template's maximum.
pub open spec fn monster_wf(m: ActiveMonsterV) -> bool {
    &&& template_wf(m.data)
    &&& !m.is_dead ==> 0 <= m.current_hp <= m.data.hp
}

impl ActiveMonster {
    pub open spec fn wf(&self) -> bool {
        monster_wf(self@)
    }
}

/// First template whose name equals `name` exactly, scanning from `i`.
pub open spec fn find_template_from(ts: Seq<MonsterV>, name: Seq<char>, i: int) -> Option<
    MonsterV,
>
    decreases ts.len() - i,
{
    if i < 0 || i >= ts.len() {
        None
    } else if ts[i].name == name {
        Some(ts[i])
    } else {
        find_template_from(ts, name, i + 1)
    }
}

pub open spec fn find_template_spec(ts: Seq<MonsterV>, name: Seq<char>) -> Option<MonsterV> {
    find_template_from(ts, name, 0)
}

/// The first template in `templates` whose name equals `name` exactly, or
/// `None` when no species of that name is known.
pub fn find_template<'a>(templates: &'a Vec<Monster>, name: &String) -> (r: Option<&'a Monster>)
    ensures
        match r {
            Some(m) => find_template_spec(
                templates@.map_values(|t: Monster| t@),
                name@,
            ) == Some(m@),
            None => find_template_spec(templates@.map_values(|t: Monster| t@), name@) is None,
        },
{
    let ghost tsv = templates@.map_values(|t: Monster| t@);
    let n = templates.len();
    let mut i: usize = 0;
    while i < n
        invariant
            i <= n,
            n == templates@.len(),
            tsv == templates@.map_values(|t: Monster| t@),
            find_template_spec(tsv, name@) == find_template_from(tsv, name@, i as int),
        decreases n - i,
    {
        proof {
            assert(tsv[i as int] == templates@[i as int]@);
        }
        if templates[i].name == *name {
            return Some(&templates[i]);
        }
        i = i + 1;
    }
    None
}

/// The monster spawned for descriptor `s` from template `t`: a copy of the
/// template standing at the chunk origin plus the descriptor's tile offset
/// scaled by the tile size, at full health.
pub open spec fn spawned_monster(t: MonsterV, s: MonsterSpawnV, origin: V2, tile_size: int) -> ActiveMonsterV {
    ActiveMonsterV {
        data: t,
        position: V2 { x: origin.x + s.x * tile_size, y: origin.y + s.y * tile_size },
        current_hp: t.hp,
        is_dead: false,
        respawn_timer: 0,
    }
}

/// The monsters spawned for a whole descriptor list, in order; descriptors
/// whose name matches no template are dropped.
pub open spec fn spawn_list(
    spawns: Seq<MonsterSpawnV>,
    ts: Seq<MonsterV>,
    origin: V2,
    tile_size: int,
) -> Seq<ActiveMonsterV>
    decreases spawns.len(),
{
    if spawns.len() == 0 {
        Seq::empty()
    } else {
        let rest = spawn_list(spawns.drop_last(), ts, origin, tile_size);
        match find_template_spec(ts, spawns.last().monster_type) {
            Some(t) => rest.push(spawned_monster(t, spawns.last(), origin, tile_size)),
            None => rest,
        }
    }
}

/// The spawn resolver never produces more monsters than descriptors.
pub proof fn lemma_spawn_list_len(
    spawns: Seq<MonsterSpawnV>,
    ts: Seq<MonsterV>,
    origin: V2,
    tile_size: int,
)
    ensures
        spawn_list(spawns, ts, origin, tile_size).len() <= spawns.len(),
    decreases spawns.len(),
{
    if spawns.len() > 0 {
        lemma_spawn_list_len(spawns.drop_last(), ts, origin, tile_size);
    }
}

/// A successful template search returns an element of the template list.
pub proof fn lemma_find_template_found(ts: Seq<MonsterV>, name: Seq<char>, i: int)
    requires
        find_template_from(ts, name, i) is Some,
    ensures
        exists|k: int|
            0 <= k < ts.len() && ts[k] == find_template_from(ts, name, i).unwrap(),
    decreases ts.len() - i,
{
    if 0 <= i < ts.len() {
        if ts[i].name == name {
            assert(0 <= i < ts.len() && ts[i] == find_template_from(ts, name, i).unwrap());
        } else {
            lemma_find_template_found(ts, name, i + 1);
        }
    }
}

/// Monsters spawned from well-formed templates and bounded spawn
/// descriptors are well formed and stand inside the coordinate range.
pub proof fn lemma_spawn_list_wf(
    spawns: Seq<MonsterSpawnV>,
    ts: Seq<MonsterV>,
    origin: V2,
    tile_size: int,
)
    requires
        forall|k: int| 0 <= k < ts.len() ==> template_wf(#[trigger] ts[k]),
        1 <= tile_size,
        0 <= origin.x <= SPAWN_OFFSET_LIMIT as int,
        0 <= origin.y <= SPAWN_OFFSET_LIMIT as int,
        forall|k: int|
            0 <= k < spawns.len() ==> {
                &&& 0 <= (#[trigger] spawns[k]).x
                &&& 0 <= spawns[k].y
                &&& spawns[k].x * tile_size <= SPAWN_OFFSET_LIMIT as int
                &&& spawns[k].y * tile_size <= SPAWN_OFFSET_LIMIT as int
            },
    ensures
        forall|k: int|
            0 <= k < spawn_list(spawns, ts, origin, tile_size).len() ==> {
                &&& monster_wf(#[trigger] spawn_list(spawns, ts, origin, tile_size)[k])
                &&& 0 <= spawn_list(spawns, ts, origin, tile_size)[k].position.x
                    <= 2 * SPAWN_OFFSET_LIMIT as int
                &&& 0 <= spawn_list(spawns, ts, origin, tile_size)[k].position.y
                    <= 2 * SPAWN_OFFSET_LIMIT as int
            },
    decreases spawns.len(),
{
    if spawns.len() > 0 {
        let cur = spawn_list(spawns, ts, origin, tile_size);
        let rest = spawn_list(spawns.drop_last(), ts, origin, tile_size);
        assert forall|k: int| 0 <= k < spawns.drop_last().len() implies {
            &&& 0 <= (#[trigger] spawns.drop_last()[k]).x
            &&& 0 <= spawns.drop_last()[k].y
            &&& spawns.drop_last()[k].x * tile_size <= SPAWN_OFFSET_LIMIT as int
            &&& spawns.drop_last()[k].y * tile_size <= SPAWN_OFFSET_LIMIT as int
        } by {
            assert(spawns.drop_last()[k] == spawns[k]);
        }
        lemma_spawn_list_wf(spawns.drop_last(), ts, origin, tile_size);
        let last = spawns.last();
        assert(last == spawns[spawns.len() - 1]);
        match find_template_spec(ts, last.monster_type) {
            Some(t) => {
                lemma_find_template_found(ts, last.monster_type, 0);
                assert(template_wf(t));
                assert(0 <= last.x * tile_size) by (nonlinear_arith)
                    requires
                        0 <= last.x,
                        1 <= tile_size,
                ;
                assert(0 <= last.y * tile_size) by (nonlinear_arith)
                    requires
                        0 <= last.y,
                        1 <= tile_size,
                ;
                let nm = spawned_monster(t, last, origin, tile_size);
                assert(cur == rest.push(nm));
                assert forall|k: int| 0 <= k < cur.len() implies {
                    &&& monster_wf(#[trigger] cur[k])
                    &&& 0 <= cur[k].position.x <= 2 * SPAWN_OFFSET_LIMIT as int
                    &&& 0 <= cur[k].position.y <= 2 * SPAWN_OFFSET_LIMIT as int
                } by {
                    if k < rest.len() {
                        assert(cur[k] == rest[k]);
                    } else {
                        assert(cur[k] == nm);
                    }
                }
            },
            None => {
                assert(cur == rest);
            },
        }
    }
}

/// Resolves every spawn descriptor against the template list, building the
/// chunk's live monster list.  Unmatched spawn names are silently dropped.
pub fn spawn_monsters(
    spawns: &Vec<MonsterSpawn>,
    templates: &Vec<Monster>,
    origin: Vec2i,
    tile_size: u32,
) -> (r: Vec<ActiveMonster>)
    requires
        1 <= tile_size,
        0 <= origin@.x <= SPAWN_OFFSET_LIMIT,
        0 <= origin@.y <= SPAWN_OFFSET_LIMIT,
        forall|i: int|
            0 <= i < spawns@.len() ==> {
                &&& 0 <= (#[trigger] spawns@[i])@.x
                &&& 0 <= spawns@[i]@.y
                &&& spawns@[i]@.x * tile_size <= SPAWN_OFFSET_LIMIT
                &&& spawns@[i]@.y * tile_size <= SPAWN_OFFSET_LIMIT
            },
    ensures
        r@.map_values(|m: ActiveMonster| m@) == spawn_list(
            spawns@.map_values(|s: MonsterSpawn| s@),
            templates@.map_values(|t: Monster| t@),
            origin@,
            tile_size as int,
        ),
{
    let ghost sv = spawns@.map_values(|s: MonsterSpawn| s@);
    let ghost tsv = templates@.map_values(|t: Monster| t@);
    let mut r: Vec<ActiveMonster> = Vec::new();
    let n = spawns.len();
    let mut i: usize = 0;
    while i < n
        invariant
            i <= n,
            n == spawns@.len(),
            sv == spawns@.map_values(|s: MonsterSpawn| s@),
            tsv == templates@.map_values(|t: Monster| t@),
            1 <= tile_size,
            0 <= origin@.x <= SPAWN_OFFSET_LIMIT,
            0 <= origin@.y <= SPAWN_OFFSET_LIMIT,
            forall|j: int|
                0 <= j < spawns@.len() ==> {
                    &&& 0 <= (#[trigger] spawns@[j])@.x
                    &&& 0 <= spawns@[j]@.y
                    &&& spawns@[j]@.x * tile_size <= SPAWN_OFFSET_LIMIT
                    &&& spawns@[j]@.y * tile_size <= SPAWN_OFFSET_LIMIT
                },
            r@.map_values(|m: ActiveMonster| m@) == spawn_list(
                sv.take(i as int),
                tsv,
                origin@,
                tile_size as int,
            ),
        decreases n - i,
    {
        proof {
            assert(sv[i as int] == spawns@[i as int]@);
            assert(sv.take(i + 1).drop_last() =~= sv.take(i as int));
            assert(sv.take(i + 1).last() == sv[i as int]);
        }
        let spawn = &spawns[i];
        match find_template(templates, &spawn.monster_type) {
            Some(template) => {
                let x64 = origin.x as i64 + (spawn.x as i64) * (tile_size as i64);
                let y64 = origin.y as i64 + (spawn.y as i64) * (tile_size as i64);
                let am = ActiveMonster {
                    data: template.clone(),
                    position: Vec2i { x: x64 as i32, y: y64 as i32 },
                    current_hp: template.hp,
                    is_dead: false,
                    respawn_timer: 0,
                };
                proof {
                    assert(am@ == spawned_monster(
                        find_template_spec(tsv, sv[i as int].monster_type).unwrap(),
                        sv[i as int],
                        origin@,
                        tile_size as int,
                    ));
                }
                let ghost prev = r@.map_values(|m: ActiveMonster| m@);
                r.push(am);
                proof {
                    assert(r@.map_values(|m: ActiveMonster| m@) =~= prev.push(am@));
                }
            },
            None => {},
        }
        i = i + 1;
    }
    proof {
        assert(sv.take(n as int) =~= sv);
    }
    r
}

} // verus!
