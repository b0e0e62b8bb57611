//! The two kinds of actor: the one player and the pursuing enemies, each a
//! positioned, healthed record with a movement speed.

use vstd::prelude::*;

use crate::vec2::Vec2;
use crate::vec2::in_range;

verus! {

/// Largest coordinate magnitude a position may reach; leaves room inside
/// `vec2::COORD_LIMIT` for the targeting cone's vertices.
pub const WORLD_LIMIT: i64 = 999_000_000;

/// Largest movement speed, in milliunits per second.
pub const SPEED_LIMIT: i64 = 1_000_000;

/// The player's starting health.
pub const PLAYER_HEALTH: i32 = 5;

/// The player's movement speed, in milliunits per second.
pub const PLAYER_SPEED: i64 = 2_000;

/// Each enemy's starting health.
pub const ENEMY_HEALTH: i32 = 25;

/// Each enemy's movement speed, in milliunits per second.
pub const ENEMY_SPEED: i64 = 90_000;

/// How long contact damage keeps the player invincible, in milliseconds.
pub const INVINCIBILITY_WINDOW_MS: u32 = 1_000;

/// The player: position, health, speed, and the contact-damage
/// invincibility window.
#[derive(Clone, Copy, PartialEq, Eq, Structural, Debug)]
pub struct Player {
    pub position: Vec2,
    /// Signed so that it can go non-positive to signal death.
    pub health: i32,
    /// Milliunits per second.
    pub speed: i64,
    pub invincible: bool,
    /// Time remaining on the invincibility window; runs exactly while
    /// `invincible`.
    pub invincibility_ms: u32,
}

impl Player {
    /// The player's invariant: position inside the world, speed bounded,
    /// and the invincibility countdown active exactly while invincible.
    pub open spec fn wf(self) -> bool {
        &&& in_range(self.position, WORLD_LIMIT as int)
        &&& 0 <= self.speed <= SPEED_LIMIT
        &&& (self.invincible <==> self.invincibility_ms >= 1)
    }
}

/// A pursuing enemy: position, health and speed.
#[derive(Clone, Copy, PartialEq, Eq, Structural, Debug)]
pub struct Enemy {
    pub position: Vec2,
    /// A live enemy's health is positive; enemies are removed on death.
    pub health: i32,
    /// Milliunits per second.
    pub speed: i64,
}

impl Enemy {
    /// A live enemy: position inside the world, positive health, bounded
    /// speed.
    pub open spec fn wf(self) -> bool {
        &&& in_range(self.position, WORLD_LIMIT as int)
        &&& self.health >= 1
        &&& 0 <= self.speed <= SPEED_LIMIT
    }
}

/// The player's starting state: at the world origin, full health, not
/// invincible.
pub open spec fn spec_initial_player() -> Player {
    Player {
        position: Vec2 { x: 0, y: 0 },
        health: PLAYER_HEALTH,
        speed: PLAYER_SPEED,
        invincible: false,
        invincibility_ms: 0,
    }
}

/// The single player in its starting state, at the world origin.
pub fn spawn_player() -> (r: Player)
    ensures
        r == spec_initial_player(),
        r.wf(),
{
    Player {
        position: Vec2 { x: 0, y: 0 },
        health: PLAYER_HEALTH,
        speed: PLAYER_SPEED,
        invincible: false,
        invincibility_ms: 0,
    }
}

/// A fresh enemy at `position`, with the configured health and speed.
pub fn spawn_enemy(position: Vec2) -> (r: Enemy)
    requires
        in_range(position, WORLD_LIMIT as int),
    ensures
        r == (Enemy { position, health: ENEMY_HEALTH, speed: ENEMY_SPEED }),
        r.wf(),
{
    Enemy { position, health: ENEMY_HEALTH, speed: ENEMY_SPEED }
}

} // verus!
