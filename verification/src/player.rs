//! The player: position, health, attack state and facing, plus the attack
//! press and cooldown rules.

use vstd::prelude::*;
use crate::geom::{Vec2i, V2};
use crate::monster::STAT_LIMIT;

verus! {

/// Cooldown between two attack presses, in milliseconds.
pub const ATTACK_COOLDOWN_MS: u32 = 500;

/// Bound on collision radii, so that radius sums stay far inside `i32`.
pub const RADIUS_LIMIT: i32 = 10_000_000;

/// The singleton player.
#[derive(Debug)]
pub struct Player {
    pub position: Vec2i,
    pub hp: i32,
    pub max_hp: i32,
    pub attack: i32,
    pub radius: i32,
    pub attack_cooldown: u32,
    pub is_attacking: bool,
    pub facing_left: bool,
    pub animation_timer: u32,
}

pub struct PlayerV {
    pub position: V2,
    pub hp: int,
    pub max_hp: int,
    pub attack: int,
    pub radius: int,
    pub attack_cooldown: int,
    pub is_attacking: bool,
    pub facing_left: bool,
    pub animation_timer: int,
}

impl View for Player {
    type V = PlayerV;

    open spec fn view(&self) -> PlayerV {
        PlayerV {
            position: self.position@,
            hp: self.hp as int,
            max_hp: self.max_hp as int,
            attack: self.attack as int,
            radius: self.radius as int,
            attack_cooldown: self.attack_cooldown as int,
            is_attacking: self.is_attacking,
            facing_left: self.facing_left,
            animation_timer: self.animation_timer as int,
        }
    }
}

/// Machine-limit side conditions on the player's stats.
pub open spec fn player_wf(p: PlayerV) -> bool {
    &&& 0 <= p.attack <= STAT_LIMIT
    &&& 0 <= p.radius <= RADIUS_LIMIT
    &&& 0 <= p.max_hp
}

impl Player {
    pub open spec fn wf(&self) -> bool {
        player_wf(self@)
    }

    /// An attack press: consumed only when the cooldown has fully elapsed,
    /// in which case the attacking flag is raised and the cooldown restarts.
    pub fn try_start_attack(&mut self) -> (started: bool)
        ensures
            started == (old(self).attack_cooldown == 0),
            started ==> *final(self) == (Player {
                is_attacking: true,
                attack_cooldown: ATTACK_COOLDOWN_MS,
                ..*old(self)
            }),
            !started ==> *final(self) == *old(self),
    {
        if self.attack_cooldown == 0 {
            self.is_attacking = true;
            self.attack_cooldown = ATTACK_COOLDOWN_MS;
            true
        } else {
            false
        }
    }

    /// Lets `elapsed_ms` of the attack cooldown elapse, stopping at zero.
    pub fn tick_attack_cooldown(&mut self, elapsed_ms: u32)
        ensures
            final(self).attack_cooldown == if old(self).attack_cooldown >= elapsed_ms {
                old(self).attack_cooldown - elapsed_ms
            } else {
                0
            },
            *final(self) == (Player {
                attack_cooldown: final(self).attack_cooldown,
                ..*old(self)
            }),
    {
        if self.attack_cooldown >= elapsed_ms {
            self.attack_cooldown = self.attack_cooldown - elapsed_ms;
        } else {
            self.attack_cooldown = 0;
        }
    }
}

} // verus!
