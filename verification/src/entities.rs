//! The component records the simulation works on, their configuration
//! constants, and their well-formedness. Distances are in milli-units (one
//! thousandth of a world unit), times in milliseconds.

use crate::geometry::{in_world, valid_half, Pos, MAX_SPEED};
use crate::timer::{AnimationTimer, RepeatTimer};
use vstd::prelude::*;

verus! {

/// Health the player starts with.
pub const PLAYER_START_HEALTH: i64 = 100;

/// Health an enemy starts with.
pub const ENEMY_START_HEALTH: i64 = 10;

/// The spawner tops the enemy population up to this count.
pub const POPULATION_TARGET: usize = 10;

/// Damage one overlapping enemy deals the player per tick.
pub const TOUCH_DAMAGE: u32 = 5;

/// Damage a projectile deals the enemy it hits.
pub const PROJECTILE_DAMAGE: u32 = 5;

/// Player displacement per pressed direction per tick.
pub const PLAYER_MOVE_SPEED: i64 = 1_000;

/// Enemy swarm step toward the player per tick.
pub const ENEMY_MOVE_SPEED: i64 = 200;

/// Projectile displacement per tick.
pub const PROJECTILE_SPEED: i64 = 1_000;

pub const PLAYER_HALF_SIZE: i64 = 25_000;

pub const ENEMY_HALF_SIZE: i64 = 25_000;

pub const PROJECTILE_HALF_SIZE: i64 = 5_000;

pub const LOOT_HALF_SIZE: i64 = 8_000;

/// The default weapon fires once per this many milliseconds.
pub const WAND_INTERVAL_MS: u64 = 1_000;

/// Loot animation frames advance once per this many milliseconds.
pub const LOOT_FRAME_INTERVAL_MS: u64 = 100;

pub const COIN_FRAME_COUNT: usize = 5;

pub const GEM_FRAME_COUNT: usize = 4;

/// Fresh enemies are placed with both coordinates drawn below this bound.
pub const SPAWN_RANGE: i64 = 1_000_000;

/// The weapon's no-target fallback draws both direction components below
/// this bound, a quirk kept as designed: the fallback is a random point in
/// the unit square, not a uniform direction on the circle.
pub const FALLBACK_DIR_RANGE: i64 = 1_000;

/// Hard cap on live projectiles; the weapon holds fire at the cap.
pub const MAX_PROJECTILES: usize = 1_024;

/// The closed enumeration of weapon kinds.
#[derive(Clone, Copy, PartialEq, Eq, Structural, Debug)]
pub enum WeaponType {
    Wand,
}

/// Per-weapon cooldown timers, one field per weapon kind.
#[derive(Clone, Copy, PartialEq, Eq, Structural, Debug)]
pub struct Weapons {
    pub wand: RepeatTimer,
}

impl Weapons {
    pub open spec fn wf(self) -> bool {
        self.wand.wf()
    }
}

/// The single player entity.
#[derive(Clone, Copy, PartialEq, Eq, Structural, Debug)]
pub struct Player {
    pub pos: Pos,
    pub move_speed: i64,
    pub health: i64,
    pub half: i64,
    pub weapons: Weapons,
}

impl Player {
    pub open spec fn wf(self) -> bool {
        &&& in_world(self.pos)
        &&& valid_half(self.half)
        &&& 1 <= self.move_speed <= MAX_SPEED
        &&& self.weapons.wf()
    }

    pub fn new(pos: Pos) -> (r: Player)
        requires
            in_world(pos),
        ensures
            r.wf(),
            r.pos == pos,
            r.health == PLAYER_START_HEALTH,
            r.move_speed == PLAYER_MOVE_SPEED,
            r.half == PLAYER_HALF_SIZE,
            r.weapons.wand.interval == WAND_INTERVAL_MS,
            r.weapons.wand.elapsed == 0,
    {
        Player {
            pos,
            move_speed: PLAYER_MOVE_SPEED,
            health: PLAYER_START_HEALTH,
            half: PLAYER_HALF_SIZE,
            weapons: Weapons { wand: RepeatTimer::new(WAND_INTERVAL_MS) },
        }
    }
}

/// One enemy of the swarm.
#[derive(Clone, Copy, PartialEq, Eq, Structural, Debug)]
pub struct Enemy {
    pub pos: Pos,
    pub half: i64,
    pub health: i64,
}

impl Enemy {
    pub open spec fn wf(self) -> bool {
        &&& in_world(self.pos)
        &&& valid_half(self.half)
    }

    pub fn new(pos: Pos) -> (r: Enemy)
        requires
            in_world(pos),
        ensures
            r.wf(),
            r.pos == pos,
            r.health == ENEMY_START_HEALTH,
            r.half == ENEMY_HALF_SIZE,
    {
        Enemy { pos, half: ENEMY_HALF_SIZE, health: ENEMY_START_HEALTH }
    }
}

/// One slot of the enemy arena. A cleared slot keeps its generation counter,
/// and placing a new enemy bumps it, so ids into the old occupant go stale
/// instead of aliasing the new one.
#[derive(Clone, Copy, PartialEq, Eq, Structural, Debug)]
pub struct EnemySlot {
    pub gen: u64,
    pub entry: Option<Enemy>,
}

impl EnemySlot {
    pub open spec fn wf(self) -> bool {
        self.entry matches Some(e) ==> e.wf()
    }

    /// Whether the slot holds a live (not yet dying) enemy.
    pub open spec fn holds_live(self) -> bool {
        self.entry matches Some(e) && e.health > 0
    }
}

pub open spec fn slots_wf(slots: Seq<EnemySlot>) -> bool {
    forall|i: int| 0 <= i < slots.len() ==> (#[trigger] slots[i]).wf()
}

/// The number of occupied slots.
pub open spec fn occupied_count(slots: Seq<EnemySlot>) -> int
    decreases slots.len(),
{
    if slots.len() == 0 {
        0
    } else {
        (if slots.first().entry is Some {
            1int
        } else {
            0int
        }) + occupied_count(slots.drop_first())
    }
}

/// A projectile in flight: despawns when it scores a hit.
#[derive(Clone, Copy, PartialEq, Eq, Structural, Debug)]
pub struct Projectile {
    pub pos: Pos,
    pub vel_x: i64,
    pub vel_y: i64,
    pub half: i64,
}

impl Projectile {
    pub open spec fn wf(self) -> bool {
        &&& in_world(self.pos)
        &&& valid_half(self.half)
        &&& -MAX_SPEED <= self.vel_x <= MAX_SPEED
        &&& -MAX_SPEED <= self.vel_y <= MAX_SPEED
    }

    pub fn new(pos: Pos, vel_x: i64, vel_y: i64) -> (r: Projectile)
        requires
            in_world(pos),
            -MAX_SPEED <= vel_x <= MAX_SPEED,
            -MAX_SPEED <= vel_y <= MAX_SPEED,
        ensures
            r.wf(),
            r.pos == pos,
            r.vel_x == vel_x,
            r.vel_y == vel_y,
            r.half == PROJECTILE_HALF_SIZE,
    {
        Projectile { pos, vel_x, vel_y, half: PROJECTILE_HALF_SIZE }
    }
}

/// The value tier of a gem drop.
#[derive(Clone, Copy, PartialEq, Eq, Structural, Debug)]
pub enum GemValue {
    Low,
    Medium,
    High,
}

/// The closed enumeration of loot categories.
#[derive(Clone, Copy, PartialEq, Eq, Structural, Debug)]
pub enum LootType {
    Coin,
    Gem(GemValue),
}

/// A dropped reward lying in the world until the player picks it up.
#[derive(Clone, Copy, PartialEq, Eq, Structural, Debug)]
pub struct Loot {
    pub pos: Pos,
    pub half: i64,
    pub kind: LootType,
    pub anim: AnimationTimer,
}

impl Loot {
    pub open spec fn wf(self) -> bool {
        &&& in_world(self.pos)
        &&& valid_half(self.half)
        &&& self.anim.wf()
    }

    pub fn new(kind: LootType, pos: Pos) -> (r: Loot)
        requires
            in_world(pos),
        ensures
            r.wf(),
            r.pos == pos,
            r.kind == kind,
            r.half == LOOT_HALF_SIZE,
            r.anim.frame == 0,
            r.anim.timer.interval == LOOT_FRAME_INTERVAL_MS,
            r.anim.frame_count == (if kind is Coin {
                COIN_FRAME_COUNT
            } else {
                GEM_FRAME_COUNT
            }),
    {
        let frames = match kind {
            LootType::Coin => COIN_FRAME_COUNT,
            LootType::Gem(_) => GEM_FRAME_COUNT,
        };
        Loot {
            pos,
            half: LOOT_HALF_SIZE,
            kind,
            anim: AnimationTimer::new(LOOT_FRAME_INTERVAL_MS, frames),
        }
    }
}

/// The direction keys held during one tick; opposite directions cancel in
/// favor of the first (left beats right, down beats up).
#[derive(Clone, Copy, PartialEq, Eq, Structural, Debug)]
pub struct InputState {
    pub left: bool,
    pub right: bool,
    pub down: bool,
    pub up: bool,
}

} // verus!
