//! The world and the tick driver. One tick runs the stages in their fixed
//! order — movement, spawning, targeting, collision, combat, loot, animation
//! — and events produced in one stage are seen only by stages strictly after
//! it. Because the driver respects that order, the fatal misconfigurations
//! (a stale death event, an empty weighted table) are proved unreachable:
//! the tick always returns a report.

use crate::collision::{collision_system, surviving_projectiles};
use crate::combat::enemy_damage_system;
use crate::entities::{
    Enemy, EnemySlot, InputState, Loot, Player, Projectile, slots_wf, MAX_PROJECTILES,
    POPULATION_TARGET,
};
use crate::events::SimError;
use crate::geometry::Pos;
use crate::loot::{animation_system, kills_resolvable, loot_drop_system};
use crate::movement::{enemy_movement_system, enemy_spawn_system, player_movement_system,
    projectile_movement_system};
use crate::targeting::player_attack_system;
use crate::timer::MAX_DELTA;
use vstd::prelude::*;

verus! {

/// Where the player starts.
pub const PLAYER_START_X: i64 = 0;

pub const PLAYER_START_Y: i64 = 0;

/// The whole simulation state: the single player, the enemy arena, the
/// projectiles in flight and the loot on the ground. The player is a plain
/// field, so the one-live-player invariant holds by construction.
pub struct World {
    pub player: Player,
    pub enemies: Vec<EnemySlot>,
    pub projectiles: Vec<Projectile>,
    pub loots: Vec<Loot>,
}

/// What one tick reports back to the caller.
#[derive(Clone, Copy, PartialEq, Eq, Structural, Debug)]
pub struct TickReport {
    /// The player's health is at or below zero: the game-over signal. The
    /// player entity itself is never removed.
    pub player_dead: bool,
    /// How many enemies died this tick.
    pub kills: usize,
    /// How many loot entities were spawned this tick.
    pub loot_drops: usize,
}

impl World {
    /// The invariant every tick preserves: all records well-formed, every
    /// enemy in a slot alive (the dying are cleared within their tick), the
    /// arena at most the population target, the projectiles at most the cap.
    pub open spec fn wf(self) -> bool {
        &&& self.player.wf()
        &&& slots_wf(self.enemies@)
        &&& self.enemies@.len() <= POPULATION_TARGET
        &&& forall|i: int|
            0 <= i < self.enemies@.len() ==> ((#[trigger] self.enemies@[i]).entry matches Some(e)
                ==> e.health > 0)
        &&& self.projectiles@.len() <= MAX_PROJECTILES
        &&& forall|i: int|
            0 <= i < self.projectiles@.len() ==> (#[trigger] self.projectiles@[i]).wf()
        &&& forall|i: int| 0 <= i < self.loots@.len() ==> (#[trigger] self.loots@[i]).wf()
    }

    /// A fresh simulation: the player at the start position and the two
    /// initial enemies in place (the spawner tops the swarm up from the
    /// first tick on), nothing in flight and nothing on the ground.
    pub fn new() -> (r: World)
        ensures
            r.wf(),
            r.player.health == crate::entities::PLAYER_START_HEALTH,
            r.player.pos == (Pos { x: PLAYER_START_X, y: PLAYER_START_Y }),
            r.enemies@.len() == 2,
            r.enemies@[0].entry matches Some(e) && e.pos == (Pos { x: 100_000, y: 100_000 }),
            r.enemies@[1].entry matches Some(e) && e.pos == (Pos { x: -100_000i64, y: -50_000i64 }),
            r.projectiles@.len() == 0,
            r.loots@.len() == 0,
    {
        let mut enemies: Vec<EnemySlot> = Vec::new();
        enemies.push(EnemySlot { gen: 0, entry: Some(Enemy::new(Pos { x: 100_000, y: 100_000 })) });
        enemies.push(
            EnemySlot { gen: 0, entry: Some(Enemy::new(Pos { x: -100_000, y: -50_000 })) },
        );
        World {
            player: Player::new(Pos { x: PLAYER_START_X, y: PLAYER_START_Y }),
            enemies,
            projectiles: Vec::new(),
            loots: Vec::new(),
        }
    }
}

proof fn lemma_surviving_projectiles_len(slots: Seq<EnemySlot>, projs: Seq<Projectile>)
    ensures
        surviving_projectiles(slots, projs).len() <= projs.len(),
    decreases projs.len(),
{
    if projs.len() > 0 {
        lemma_surviving_projectiles_len(slots, projs.drop_last());
    }
}

/// Advances the simulation by one tick. The stages run in their fixed
/// order; because damage is applied before the loot stage and dead enemies
/// stay in their slots until the loot stage has read their position, the
/// fatal error paths are unreachable and the tick always reports. The report
/// carries the game-over signal: the player's health has crossed zero.
/// Across the whole tick the player moves exactly one input step, the weapon
/// cooldown advances exactly once, and the player's health never rises.
pub fn tick(world: &mut World, input: InputState, delta: u64) -> (r: Result<TickReport, SimError>)
    requires
        old(world).wf(),
        delta <= MAX_DELTA,
    ensures
        r is Ok,
        final(world).wf(),
        r matches Ok(rep) ==> rep.player_dead == (final(world).player.health <= 0),
        final(world).player.pos.x as int == crate::geometry::clamp_coord(
            old(world).player.pos.x + crate::movement::axis_move(
                input.left,
                input.right,
                old(world).player.move_speed as int,
            ),
        ),
        final(world).player.pos.y as int == crate::geometry::clamp_coord(
            old(world).player.pos.y + crate::movement::axis_move(
                input.down,
                input.up,
                old(world).player.move_speed as int,
            ),
        ),
        final(world).player.weapons.wand.interval == old(world).player.weapons.wand.interval,
        final(world).player.weapons.wand.elapsed as int == (old(world).player.weapons.wand.elapsed
            + delta) % (old(world).player.weapons.wand.interval as int),
        final(world).player.health <= old(world).player.health,
{
    // Movement: the player by input, the swarm toward the player, the
    // projectiles by their velocity.
    player_movement_system(&mut world.player, input);
    let target = world.player.pos;
    enemy_movement_system(&mut world.enemies, target);
    projectile_movement_system(&mut world.projectiles);

    // Spawning: top the population up to its target.
    enemy_spawn_system(&mut world.enemies);
    proof {
        assert forall|i: int|
            0 <= i < world.enemies@.len() implies ((#[trigger] world.enemies@[i]).entry
            matches Some(e) ==> e.health > 0) by {
            if i < old(world).enemies@.len() {
                assert(old(world).enemies@[i].entry matches Some(e0) ==> e0.health > 0);
            }
        }
    }

    // Targeting: the weapon cooldown may fire one projectile.
    let ghost projs_pre = world.projectiles@;
    player_attack_system(&mut world.player, &world.enemies, &mut world.projectiles, delta);
    proof {
        assert forall|i: int|
            0 <= i < world.projectiles@.len() implies (#[trigger] world.projectiles@[i]).wf() by {
            if world.projectiles@ == projs_pre {
                assert(world.projectiles@[i] == projs_pre[i]);
            } else {
                assert(world.projectiles@.len() == projs_pre.len() + 1);
                if i < projs_pre.len() {
                    assert(world.projectiles@[i] == world.projectiles@.take(
                        projs_pre.len() as int,
                    )[i]);
                    assert(world.projectiles@[i] == projs_pre[i]);
                } else {
                    assert(world.projectiles@[i] == world.projectiles@.last());
                }
            }
        }
        if world.projectiles@ != projs_pre {
            assert(projs_pre.len() < MAX_PROJECTILES);
        }
        assert(world.projectiles@.len() <= MAX_PROJECTILES);
    }

    // Collision: the three scans emit this tick's damage events and remove
    // picked-up loot and spent projectiles.
    let ghost projs_at_collision = world.projectiles@;
    let events = collision_system(
        &world.player,
        &world.enemies,
        &mut world.projectiles,
        &mut world.loots,
    );
    proof {
        lemma_surviving_projectiles_len(world.enemies@, projs_at_collision);
        assert(world.projectiles@.len() <= projs_at_collision.len());
    }

    // Combat: apply the damage, mark the dead, emit the kill events.
    let kills = enemy_damage_system(&mut world.player, &mut world.enemies, &events);
    proof {
        crate::events::lemma_damage_total_nonneg(events@, crate::events::EntityId::Player);
    }

    // Loot: read each dead enemy's position, clear the slot, roll the drop.
    proof {
        assert(kills_resolvable(kills@, world.enemies@));
    }
    let ghost enemies_after_combat = world.enemies@;
    let ghost loots_pre = world.loots@;
    let spawned = match loot_drop_system(&mut world.enemies, &mut world.loots, &kills) {
        Ok(spawned) => spawned,
        Err(e) => {
            proof {
                assert(false);
            }
            return Err(e);
        },
    };
    proof {
        assert forall|i: int|
            0 <= i < world.loots@.len() implies (#[trigger] world.loots@[i]).wf() by {
            if i < loots_pre.len() {
                assert(world.loots@[i] == world.loots@.take(loots_pre.len() as int)[i]);
                assert(world.loots@[i] == loots_pre[i]);
            }
        }
        assert forall|i: int|
            0 <= i < world.enemies@.len() implies ((#[trigger] world.enemies@[i]).entry
            matches Some(e) ==> e.health > 0) by {
            if world.enemies@[i].entry is Some {
                if exists|k: int|
                    0 <= k < kills@.len() && (#[trigger] kills@[k]).target.index == i {
                    let k = choose|k: int|
                        0 <= k < kills@.len() && (#[trigger] kills@[k]).target.index == i;
                    assert(world.enemies@[i].entry is None);
                } else {
                    assert(world.enemies@[i] == enemies_after_combat[i]);
                    if world.enemies@[i].entry->Some_0.health <= 0 {
                        let k = choose|k: int|
                            0 <= k < kills@.len() && (#[trigger] kills@[k]).target.index == i;
                        assert(false);
                    }
                }
            }
        }
    }

    // Animation: advance every loot frame timer.
    animation_system(&mut world.loots, delta);

    let kill_count = kills.len();
    let player_dead = world.player.health <= 0;
    Ok(TickReport { player_dead, kills: kill_count, loot_drops: spawned })
}

} // verus!
