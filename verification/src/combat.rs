//! Contact combat: circle intersection, continuous contact damage, one
//! consumed hit per attack press, loot on death, and the respawn countdown.

use vstd::prelude::*;
use crate::geom::{Vec2i, V2};
use crate::monster::{monster_wf, ActiveMonster, ActiveMonsterV};
use crate::player::{player_wf, Player, PlayerV, RADIUS_LIMIT};

verus! {

/// How long a dead monster stays down before it respawns, in milliseconds.
pub const RESPAWN_TIME_MS: u32 = 5000;

/// Bound on the coordinates fed to the collision test, so that squared
/// distances stay inside `i64`.
pub const COLLISION_COORD_LIMIT: i32 = 1_000_000_000;

/// Whether two circles intersect: the squared distance between the centres
/// is less than the square of the radius sum.  Exactly the Euclidean
/// `distance < r1 + r2` test, stated without square roots.
pub open spec fn circles_collide(p1: V2, r1: int, p2: V2, r2: int) -> bool {
    (p1.x - p2.x) * (p1.x - p2.x) + (p1.y - p2.y) * (p1.y - p2.y) < (r1 + r2) * (r1 + r2)
}

/// Whether the bounding circles of two actors touch.
pub fn check_collision(pos1: Vec2i, radius1: i32, pos2: Vec2i, radius2: i32) -> (b: bool)
    requires
        -COLLISION_COORD_LIMIT <= pos1@.x <= COLLISION_COORD_LIMIT,
        -COLLISION_COORD_LIMIT <= pos1@.y <= COLLISION_COORD_LIMIT,
        -COLLISION_COORD_LIMIT <= pos2@.x <= COLLISION_COORD_LIMIT,
        -COLLISION_COORD_LIMIT <= pos2@.y <= COLLISION_COORD_LIMIT,
        0 <= radius1 <= RADIUS_LIMIT,
        0 <= radius2 <= RADIUS_LIMIT,
    ensures
        b == circles_collide(pos1@, radius1 as int, pos2@, radius2 as int),
{
    let dx = pos1.x as i64 - pos2.x as i64;
    let dy = pos1.y as i64 - pos2.y as i64;
    let rsum = radius1 as i64 + radius2 as i64;
    proof {
        assert(dx * dx <= 4_000_000_000_000_000_000 && dx * dx >= 0) by (nonlinear_arith)
            requires
                -2_000_000_000 <= dx <= 2_000_000_000,
        ;
        assert(dy * dy <= 4_000_000_000_000_000_000 && dy * dy >= 0) by (nonlinear_arith)
            requires
                -2_000_000_000 <= dy <= 2_000_000_000,
        ;
        assert(rsum * rsum <= 400_000_000_000_000 && rsum * rsum >= 0) by (nonlinear_arith)
            requires
                0 <= rsum <= 20_000_000,
        ;
    }
    dx * dx + dy * dy < rsum * rsum
}

/// One combat-and-respawn step of a single monster against the player:
/// while the circles touch, the monster deals one point of contact damage
/// per tick; a raised attack flag lands one hit for the player's full attack
/// and is consumed; a monster dropping to zero or below dies, yields its
/// gold once and starts the respawn countdown.  A dead monster instead
/// counts its timer down and revives at full health, in place.
pub open spec fn combat_result(
    p: PlayerV,
    m: ActiveMonsterV,
    monster_radius: int,
    elapsed_ms: int,
) -> (PlayerV, ActiveMonsterV, int) {
    if !m.is_dead {
        if circles_collide(p.position, p.radius, m.position, monster_radius) {
            let p1 = PlayerV { hp: p.hp - 1, ..p };
            if p.is_attacking {
                let hp2 = m.current_hp - p.attack;
                let p2 = PlayerV { is_attacking: false, ..p1 };
                if hp2 <= 0 {
                    (
                        p2,
                        ActiveMonsterV {
                            current_hp: hp2,
                            is_dead: true,
                            respawn_timer: RESPAWN_TIME_MS as int,
                            ..m
                        },
                        m.data.loot.gold,
                    )
                } else {
                    (p2, ActiveMonsterV { current_hp: hp2, ..m }, 0)
                }
            } else {
                (p1, m, 0)
            }
        } else {
            (p, m, 0)
        }
    } else {
        if elapsed_ms >= m.respawn_timer {
            (p, ActiveMonsterV { is_dead: false, current_hp: m.data.hp, respawn_timer: 0, ..m }, 0)
        } else {
            (p, ActiveMonsterV { respawn_timer: m.respawn_timer - elapsed_ms, ..m }, 0)
        }
    }
}

/// Runs one combat-and-respawn step of `monster` against `player`, exactly
/// as `combat_result` describes, returning the gold awarded (zero except at
/// the tick the monster dies).
pub fn monster_combat_tick(
    player: &mut Player,
    monster: &mut ActiveMonster,
    monster_radius: i32,
    elapsed_ms: u32,
) -> (gold: i32)
    requires
        player_wf(old(player)@),
        monster_wf(old(monster)@),
        old(player).hp > i32::MIN,
        0 <= monster_radius <= RADIUS_LIMIT,
        -COLLISION_COORD_LIMIT <= old(player).position@.x <= COLLISION_COORD_LIMIT,
        -COLLISION_COORD_LIMIT <= old(player).position@.y <= COLLISION_COORD_LIMIT,
        -COLLISION_COORD_LIMIT <= old(monster).position@.x <= COLLISION_COORD_LIMIT,
        -COLLISION_COORD_LIMIT <= old(monster).position@.y <= COLLISION_COORD_LIMIT,
    ensures
        ({
            let (pv, mv, g) = combat_result(
                old(player)@,
                old(monster)@,
                monster_radius as int,
                elapsed_ms as int,
            );
            &&& final(player)@ == pv
            &&& final(monster)@ == mv
            &&& gold == g
        }),
        player_wf(final(player)@),
        monster_wf(final(monster)@),
        final(monster).position == old(monster).position,
{
    if !monster.is_dead {
        if check_collision(player.position, player.radius, monster.position, monster_radius) {
            player.hp = player.hp - 1;
            if player.is_attacking {
                monster.current_hp = monster.current_hp - player.attack;
                player.is_attacking = false;
                if monster.current_hp <= 0 {
                    monster.is_dead = true;
                    monster.respawn_timer = RESPAWN_TIME_MS;
                    return monster.data.loot.gold;
                }
            }
        }
        0
    } else {
        if elapsed_ms >= monster.respawn_timer {
            monster.is_dead = false;
            monster.current_hp = monster.data.hp;
            monster.respawn_timer = 0;
        } else {
            monster.respawn_timer = monster.respawn_timer - elapsed_ms;
        }
        0
    }
}

} // verus!
