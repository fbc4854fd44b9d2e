//! Per-tick simulation steps that go through the chunk manager: moving one
//! monster with the movement resolver, and resolving one monster's combat
//! against the player.  The driving loop hands in displacements and elapsed
//! time; everything it can decide is decided here.

use vstd::prelude::*;
use crate::geom::{Vec2i, V2, COORD_LIMIT};
use crate::chunks::{chunk_index_model, chunk_wf, ChunkManager, ChunkV, CmV};
use crate::combat::{combat_result, monster_combat_tick, COLLISION_COORD_LIMIT};
use crate::monster::{monster_wf, ActiveMonsterV};
use crate::movement::{monster_move_spec, resolve_monster_move, STEP_LIMIT};
use crate::player::{player_wf, Player, PlayerV, RADIUS_LIMIT};

verus! {

/// The manager after monster `idx` of chunk `chunk_id` takes displacement
/// `step` through the movement resolver; unchanged when the chunk is not
/// resident or the index is out of range.
pub open spec fn move_monster_model(s: CmV, chunk_id: usize, idx: int, step: V2) -> CmV {
    match chunk_index_model(s, chunk_id) {
        None => s,
        Some(k) => {
            if 0 <= idx < s.chunks[k].monsters.len() {
                let m = s.chunks[k].monsters[idx];
                let m2 = ActiveMonsterV { position: monster_move_spec(s, m.position, step), ..m };
                CmV {
                    chunks: s.chunks.update(
                        k,
                        ChunkV { monsters: s.chunks[k].monsters.update(idx, m2), ..s.chunks[k] },
                    ),
                    ..s
                }
            } else {
                s
            }
        },
    }
}

/// The manager, player and gold after monster `idx` of chunk `chunk_id`
/// runs one combat-and-respawn step against the player; all unchanged when
/// the chunk is not resident or the index is out of range.
pub open spec fn combat_at_model(
    s: CmV,
    chunk_id: usize,
    idx: int,
    p: PlayerV,
    monster_radius: int,
    elapsed_ms: int,
) -> (CmV, PlayerV, int) {
    match chunk_index_model(s, chunk_id) {
        None => (s, p, 0),
        Some(k) => {
            if 0 <= idx < s.chunks[k].monsters.len() {
                let (p2, m2, g) = combat_result(
                    p,
                    s.chunks[k].monsters[idx],
                    monster_radius,
                    elapsed_ms,
                );
                (
                    CmV {
                        chunks: s.chunks.update(
                            k,
                            ChunkV {
                                monsters: s.chunks[k].monsters.update(idx, m2),
                                ..s.chunks[k]
                            },
                        ),
                        ..s
                    },
                    p2,
                    g,
                )
            } else {
                (s, p, 0)
            }
        },
    }
}

/// One whole chunk's combat, monster by monster in list order, threading
/// the player through: the monsters after their steps, the player after all
/// contact damage and consumed hits, and the total gold awarded.
pub open spec fn chunk_combat_fold(
    ms: Seq<ActiveMonsterV>,
    p: PlayerV,
    monster_radius: int,
    elapsed_ms: int,
) -> (Seq<ActiveMonsterV>, PlayerV, int)
    decreases ms.len(),
{
    if ms.len() == 0 {
        (Seq::empty(), p, 0)
    } else {
        let (pm, p1, g1) = chunk_combat_fold(ms.drop_last(), p, monster_radius, elapsed_ms);
        let (p2, m2, g2) = combat_result(p1, ms.last(), monster_radius, elapsed_ms);
        (pm.push(m2), p2, g1 + g2)
    }
}

impl ChunkManager {
    /// Moves one monster by `step` through the movement resolver: the
    /// monster takes the displacement when its target point is walkable,
    /// slides along one axis otherwise, and never ends on a blocked tile.
    pub fn move_monster(&mut self, chunk_id: usize, monster_index: usize, step: Vec2i)
        requires
            old(self).wf(),
            -STEP_LIMIT <= step@.x <= STEP_LIMIT,
            -STEP_LIMIT <= step@.y <= STEP_LIMIT,
        ensures
            final(self).wf(),
            final(self)@ == move_monster_model(old(self)@, chunk_id, monster_index as int, step@),
    {
        let ghost s0 = self@;
        let k = match self.chunk_index_of(chunk_id) {
            Some(k) => k,
            None => {
                return;
            },
        };
        proof {
            assert(s0.chunks[k as int] == self.chunks@[k as int]@);
            assert(chunk_wf(s0, s0.chunks[k as int]));
        }
        if monster_index >= self.chunks[k].active_monsters.len() {
            return;
        }
        proof {
            assert(s0.chunks[k as int].monsters[monster_index as int]
                == self.chunks@[k as int].active_monsters@[monster_index as int]@);
        }
        let cur = self.chunks[k].active_monsters[monster_index].position;
        let new_pos = resolve_monster_move(self, cur, step);
        let mut chunk = self.chunks.remove(k);
        let mut m = chunk.active_monsters.remove(monster_index);
        m.position = new_pos;
        let ghost m2 = m@;
        chunk.active_monsters.insert(monster_index, m);
        proof {
            assert(chunk.active_monsters@.map_values(|am: crate::monster::ActiveMonster| am@)
                =~= s0.chunks[k as int].monsters.update(monster_index as int, m2));
        }
        self.chunks.insert(k, chunk);
        let ghost s1 = move_monster_model(s0, chunk_id, monster_index as int, step@);
        proof {
            assert(self@.chunks =~= s1.chunks);
            assert(self@ =~= s1);
            assert forall|i: int| 0 <= i < s1.chunks.len() implies chunk_wf(
                s1,
                #[trigger] s1.chunks[i],
            ) by {
                assert(chunk_wf(s0, s0.chunks[i]));
                if i == k as int {
                    assert forall|j: int| 0 <= j < s1.chunks[i].monsters.len() implies {
                        &&& monster_wf(#[trigger] s1.chunks[i].monsters[j])
                        &&& -COORD_LIMIT as int <= s1.chunks[i].monsters[j].position.x
                            <= COORD_LIMIT as int
                        &&& -COORD_LIMIT as int <= s1.chunks[i].monsters[j].position.y
                            <= COORD_LIMIT as int
                    } by {
                        assert(monster_wf(s0.chunks[i].monsters[j]));
                        if j == monster_index as int {
                            assert(s1.chunks[i].monsters[j] == m2);
                        } else {
                            assert(s1.chunks[i].monsters[j] == s0.chunks[i].monsters[j]);
                        }
                    }
                }
            }
        }
    }


    /// Runs one combat-and-respawn step for every monster of one chunk, in
    /// list order, exactly as `chunk_combat_fold` describes: contact
    /// damage, consumed attack presses, deaths with their loot, and respawn
    /// countdowns.  Returns the total gold awarded this tick.
    pub fn resolve_chunk_combat(
        &mut self,
        chunk_id: usize,
        player: &mut Player,
        monster_radius: i32,
        elapsed_ms: u32,
    ) -> (gold: i64)
        requires
            old(self).wf(),
            player_wf(old(player)@),
            old(player).hp > i32::MIN as int + 1_000_000,
            0 <= monster_radius <= RADIUS_LIMIT,
            -COLLISION_COORD_LIMIT <= old(player).position@.x <= COLLISION_COORD_LIMIT,
            -COLLISION_COORD_LIMIT <= old(player).position@.y <= COLLISION_COORD_LIMIT,
        ensures
            final(self).wf(),
            player_wf(final(player)@),
            match chunk_index_model(old(self)@, chunk_id) {
                None => final(self)@ == old(self)@ && *final(player) == *old(player) && gold == 0,
                Some(k) => ({
                    let (ms, pv, g) = chunk_combat_fold(
                        old(self)@.chunks[k].monsters,
                        old(player)@,
                        monster_radius as int,
                        elapsed_ms as int,
                    );
                    &&& final(self)@ == (CmV {
                        chunks: old(self)@.chunks.update(
                            k,
                            ChunkV { monsters: ms, ..old(self)@.chunks[k] },
                        ),
                        ..old(self)@
                    })
                    &&& final(player)@ == pv
                    &&& gold == g
                }),
            },
    {
        let ghost s0 = self@;
        let ghost p0 = *player;
        let k = match self.chunk_index_of(chunk_id) {
            Some(k) => k,
            None => {
                return 0;
            },
        };
        proof {
            assert(s0.chunks[k as int] == self.chunks@[k as int]@);
            assert(chunk_wf(s0, s0.chunks[k as int]));
        }
        let mut chunk = self.chunks.remove(k);
        let ghost ms0 = s0.chunks[k as int].monsters;
        let n = chunk.active_monsters.len();
        let mut gold: i64 = 0;
        let mut i: usize = 0;
        while i < n
            invariant
                i <= n,
                n == ms0.len(),
                n <= 1_000_000,
                chunk.active_monsters@.len() == n,
                0 <= monster_radius <= RADIUS_LIMIT,
                -COLLISION_COORD_LIMIT <= p0.position@.x <= COLLISION_COORD_LIMIT,
                -COLLISION_COORD_LIMIT <= p0.position@.y <= COLLISION_COORD_LIMIT,
                p0.hp > i32::MIN as int + 1_000_000,
                forall|j: int|
                    0 <= j < n ==> {
                        &&& monster_wf(#[trigger] ms0[j])
                        &&& -COORD_LIMIT as int <= ms0[j].position.x <= COORD_LIMIT as int
                        &&& -COORD_LIMIT as int <= ms0[j].position.y <= COORD_LIMIT as int
                    },
                chunk@.id == s0.chunks[k as int].id,
                chunk@.world_x == s0.chunks[k as int].world_x,
                chunk@.world_y == s0.chunks[k as int].world_y,
                chunk@.map == s0.chunks[k as int].map,
                chunk@.is_loaded == s0.chunks[k as int].is_loaded,
                ({
                    let (pm, pv, g) = chunk_combat_fold(
                        ms0.take(i as int),
                        p0@,
                        monster_radius as int,
                        elapsed_ms as int,
                    );
                    &&& pm.len() == i
                    &&& chunk.active_monsters@.map_values(|am: crate::monster::ActiveMonster| am@)
                        == pm + ms0.skip(i as int)
                    &&& player@ == pv
                    &&& gold == g
                    &&& player.position == p0.position
                    &&& player@.hp >= p0@.hp - i
                    &&& 0 <= gold <= i * 1_000_000
                    &&& player_wf(player@)
                    &&& forall|j: int|
                        0 <= j < i ==> {
                            &&& monster_wf(#[trigger] pm[j])
                            &&& -COORD_LIMIT as int <= pm[j].position.x <= COORD_LIMIT as int
                            &&& -COORD_LIMIT as int <= pm[j].position.y <= COORD_LIMIT as int
                        }
                }),
            decreases n - i,
        {
            let ghost fold_i = chunk_combat_fold(
                ms0.take(i as int),
                p0@,
                monster_radius as int,
                elapsed_ms as int,
            );
            proof {
                assert(ms0.take(i as int + 1).drop_last() =~= ms0.take(i as int));
                assert(ms0.take(i as int + 1).last() == ms0[i as int]);
                assert(chunk.active_monsters@[i as int]@ == (fold_i.0 + ms0.skip(i as int))[
                    i as int
                ]);
                assert((fold_i.0 + ms0.skip(i as int))[i as int] == ms0[i as int]);
            }
            let ghost vpre = chunk.active_monsters@;
            let mut m = chunk.active_monsters.remove(i);
            let g = monster_combat_tick(player, &mut m, monster_radius, elapsed_ms);
            let ghost m2 = m@;
            chunk.active_monsters.insert(i, m);
            proof {
                let pm2 = chunk_combat_fold(
                    ms0.take(i as int + 1),
                    p0@,
                    monster_radius as int,
                    elapsed_ms as int,
                ).0;
                assert(pm2 == fold_i.0.push(m2));
                let vnow = chunk.active_monsters@;
                assert(vnow =~= vpre.update(i as int, vnow[i as int]));
                assert(vnow[i as int]@ == m2);
                assert forall|j: int| 0 <= j < n implies (#[trigger] vnow[j])@ == (pm2
                    + ms0.skip(i as int + 1))[j] by {
                    assert(vpre.map_values(|am: crate::monster::ActiveMonster| am@)[j]
                        == vpre[j]@);
                    if j < i {
                        assert(vnow[j] == vpre[j]);
                        assert(vpre[j]@ == (fold_i.0 + ms0.skip(i as int))[j]);
                        assert((fold_i.0 + ms0.skip(i as int))[j] == fold_i.0[j]);
                        assert((pm2 + ms0.skip(i as int + 1))[j] == pm2[j]);
                        assert(pm2[j] == fold_i.0[j]);
                    } else if j == i {
                        assert((pm2 + ms0.skip(i as int + 1))[j] == pm2[j]);
                        assert(pm2[j] == m2);
                    } else {
                        assert(vnow[j] == vpre[j]);
                        assert(vpre[j]@ == (fold_i.0 + ms0.skip(i as int))[j]);
                        assert((fold_i.0 + ms0.skip(i as int))[j] == ms0.skip(i as int)[j - i]);
                        assert(ms0.skip(i as int)[j - i] == ms0[j]);
                        assert((pm2 + ms0.skip(i as int + 1))[j] == ms0.skip(i as int + 1)[j - i
                            - 1]);
                        assert(ms0.skip(i as int + 1)[j - i - 1] == ms0[j]);
                    }
                }
                assert(chunk.active_monsters@.map_values(
                    |am: crate::monster::ActiveMonster| am@,
                ) =~= pm2 + ms0.skip(i as int + 1));
            }
            gold = gold + g as i64;
            i = i + 1;
        }
        proof {
            assert(ms0.take(n as int) =~= ms0);
            assert(ms0.skip(n as int) =~= Seq::<ActiveMonsterV>::empty());
            let fold_n = chunk_combat_fold(
                ms0,
                p0@,
                monster_radius as int,
                elapsed_ms as int,
            );
            assert(chunk.active_monsters@.map_values(|am: crate::monster::ActiveMonster| am@)
                =~= fold_n.0);
        }
        self.chunks.insert(k, chunk);
        proof {
            let fold_n = chunk_combat_fold(
                ms0,
                p0@,
                monster_radius as int,
                elapsed_ms as int,
            );
            let s1 = CmV {
                chunks: s0.chunks.update(
                    k as int,
                    ChunkV { monsters: fold_n.0, ..s0.chunks[k as int] },
                ),
                ..s0
            };
            assert(chunk@ =~= (ChunkV { monsters: fold_n.0, ..s0.chunks[k as int] }));
            assert(self@.chunks =~= s1.chunks);
            assert(self@ =~= s1);
            assert forall|ii: int| 0 <= ii < s1.chunks.len() implies chunk_wf(
                s1,
                #[trigger] s1.chunks[ii],
            ) by {
                assert(chunk_wf(s0, s0.chunks[ii]));
                if ii == k as int {
                    assert(s1.chunks[ii].monsters.len() == ms0.len());
                }
            }
        }
        gold
    }

    /// Runs one combat-and-respawn step of one monster against the player,
    /// returning the gold awarded (zero except at the tick the monster
    /// dies).
    pub fn monster_combat_at(
        &mut self,
        chunk_id: usize,
        monster_index: usize,
        player: &mut Player,
        monster_radius: i32,
        elapsed_ms: u32,
    ) -> (gold: i32)
        requires
            old(self).wf(),
            player_wf(old(player)@),
            old(player).hp > i32::MIN,
            0 <= monster_radius <= RADIUS_LIMIT,
            -COLLISION_COORD_LIMIT <= old(player).position@.x <= COLLISION_COORD_LIMIT,
            -COLLISION_COORD_LIMIT <= old(player).position@.y <= COLLISION_COORD_LIMIT,
        ensures
            final(self).wf(),
            player_wf(final(player)@),
            ({
                let (sv, pv, g) = combat_at_model(
                    old(self)@,
                    chunk_id,
                    monster_index as int,
                    old(player)@,
                    monster_radius as int,
                    elapsed_ms as int,
                );
                &&& final(self)@ == sv
                &&& final(player)@ == pv
                &&& gold == g
            }),
    {
        let ghost s0 = self@;
        let k = match self.chunk_index_of(chunk_id) {
            Some(k) => k,
            None => {
                return 0;
            },
        };
        proof {
            assert(s0.chunks[k as int] == self.chunks@[k as int]@);
            assert(chunk_wf(s0, s0.chunks[k as int]));
        }
        if monster_index >= self.chunks[k].active_monsters.len() {
            return 0;
        }
        proof {
            assert(s0.chunks[k as int].monsters[monster_index as int]
                == self.chunks@[k as int].active_monsters@[monster_index as int]@);
            assert(monster_wf(s0.chunks[k as int].monsters[monster_index as int]));
        }
        let mut chunk = self.chunks.remove(k);
        let mut m = chunk.active_monsters.remove(monster_index);
        let gold = monster_combat_tick(player, &mut m, monster_radius, elapsed_ms);
        let ghost m2 = m@;
        chunk.active_monsters.insert(monster_index, m);
        proof {
            assert(chunk.active_monsters@.map_values(|am: crate::monster::ActiveMonster| am@)
                =~= s0.chunks[k as int].monsters.update(monster_index as int, m2));
        }
        self.chunks.insert(k, chunk);
        let ghost s1 = combat_at_model(
            s0,
            chunk_id,
            monster_index as int,
            old(player)@,
            monster_radius as int,
            elapsed_ms as int,
        ).0;
        proof {
            assert(self@.chunks =~= s1.chunks);
            assert(self@ =~= s1);
            assert forall|i: int| 0 <= i < s1.chunks.len() implies chunk_wf(
                s1,
                #[trigger] s1.chunks[i],
            ) by {
                assert(chunk_wf(s0, s0.chunks[i]));
                if i == k as int {
                    assert forall|j: int| 0 <= j < s1.chunks[i].monsters.len() implies {
                        &&& monster_wf(#[trigger] s1.chunks[i].monsters[j])
                        &&& -COORD_LIMIT as int <= s1.chunks[i].monsters[j].position.x
                            <= COORD_LIMIT as int
                        &&& -COORD_LIMIT as int <= s1.chunks[i].monsters[j].position.y
                            <= COORD_LIMIT as int
                    } by {
                        assert(monster_wf(s0.chunks[i].monsters[j]));
                        if j == monster_index as int {
                            assert(s1.chunks[i].monsters[j] == m2);
                        } else {
                            assert(s1.chunks[i].monsters[j] == s0.chunks[i].monsters[j]);
                        }
                    }
                }
            }
        }
        gold
    }
}

} // verus!
