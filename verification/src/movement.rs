//! The movement stage: player displacement from held keys, enemy swarm
//! steering toward the player, projectile flight, and the population-target
//! enemy spawner.

use crate::entities::{
    Enemy, EnemySlot, InputState, Player, Projectile, occupied_count, slots_wf, ENEMY_HALF_SIZE,
    ENEMY_MOVE_SPEED, ENEMY_START_HEALTH, POPULATION_TARGET, SPAWN_RANGE,
};
use crate::geometry::{clamp_coord, clamped, in_world, step_target_x, step_target_y, step_toward, Pos};
use crate::rng::random_below;
use vstd::prelude::*;

verus! {

/// The player's displacement on one axis: the first listed key wins, so left
/// beats right and down beats up, exactly one speed step per axis per tick.
pub open spec fn axis_move(neg: bool, pos: bool, speed: int) -> int {
    if neg {
        -speed
    } else if pos {
        speed
    } else {
        0
    }
}

/// Moves the player by the held direction keys, one speed step per axis,
/// clamped to the world.
pub fn player_movement_system(player: &mut Player, input: InputState)
    requires
        old(player).wf(),
    ensures
        final(player).wf(),
        final(player).pos.x as int == clamp_coord(
            old(player).pos.x + axis_move(input.left, input.right, old(player).move_speed as int),
        ),
        final(player).pos.y as int == clamp_coord(
            old(player).pos.y + axis_move(input.down, input.up, old(player).move_speed as int),
        ),
        final(player).move_speed == old(player).move_speed,
        final(player).health == old(player).health,
        final(player).half == old(player).half,
        final(player).weapons == old(player).weapons,
{
    let mut x = player.pos.x;
    let mut y = player.pos.y;
    if input.left {
        x = clamped(x - player.move_speed);
    } else if input.right {
        x = clamped(x + player.move_speed);
    } else {
        x = clamped(x);
    }
    if input.down {
        y = clamped(y - player.move_speed);
    } else if input.up {
        y = clamped(y + player.move_speed);
    } else {
        y = clamped(y);
    }
    player.pos = Pos { x, y };
}

/// Every enemy swarms straight toward the player: one Manhattan step of the
/// enemy speed per tick. Cleared slots and everything else stay untouched.
pub fn enemy_movement_system(enemies: &mut Vec<EnemySlot>, target: Pos)
    requires
        slots_wf(old(enemies)@),
        in_world(target),
    ensures
        slots_wf(final(enemies)@),
        final(enemies)@.len() == old(enemies)@.len(),
        forall|i: int|
            0 <= i < old(enemies)@.len() ==> {
                let s0 = old(enemies)@[i];
                let s1 = #[trigger] final(enemies)@[i];
                &&& s1.gen == s0.gen
                &&& (s0.entry is None ==> s1 == s0)
                &&& (s0.entry matches Some(e0) ==> s1.entry matches Some(e1) && e1.half == e0.half
                    && e1.health == e0.health && e1.pos.x as int == step_target_x(
                    e0.pos,
                    target,
                    ENEMY_MOVE_SPEED as int,
                ) && e1.pos.y as int == step_target_y(e0.pos, target, ENEMY_MOVE_SPEED as int))
            },
{
    let n = enemies.len();
    let mut i: usize = 0;
    while i < n
        invariant
            n == enemies.len(),
            i <= n,
            in_world(target),
            slots_wf(enemies@),
            forall|j: int| i <= j < n ==> #[trigger] enemies@[j] == old(enemies)@[j],
            forall|j: int|
                0 <= j < i ==> {
                    let s0 = old(enemies)@[j];
                    let s1 = #[trigger] enemies@[j];
                    &&& s1.gen == s0.gen
                    &&& (s0.entry is None ==> s1 == s0)
                    &&& (s0.entry matches Some(e0) ==> s1.entry matches Some(e1) && e1.half
                        == e0.half && e1.health == e0.health && e1.pos.x as int == step_target_x(
                        e0.pos,
                        target,
                        ENEMY_MOVE_SPEED as int,
                    ) && e1.pos.y as int == step_target_y(e0.pos, target, ENEMY_MOVE_SPEED as int))
                },
        decreases n - i,
    {
        let slot = enemies[i];
        match slot.entry {
            Some(e) => {
                let moved = step_toward(e.pos, target, ENEMY_MOVE_SPEED);
                let updated = EnemySlot {
                    gen: slot.gen,
                    entry: Some(Enemy { pos: moved, half: e.half, health: e.health }),
                };
                enemies.set(i, updated);
            },
            None => {},
        }
        i = i + 1;
    }
}

/// Every projectile advances by its velocity, clamped to the world.
pub fn projectile_movement_system(projectiles: &mut Vec<Projectile>)
    requires
        forall|i: int| 0 <= i < old(projectiles)@.len() ==> (#[trigger] old(projectiles)@[i]).wf(),
    ensures
        final(projectiles)@.len() == old(projectiles)@.len(),
        forall|i: int|
            0 <= i < old(projectiles)@.len() ==> {
                let p0 = old(projectiles)@[i];
                let p1 = #[trigger] final(projectiles)@[i];
                &&& p1.wf()
                &&& p1.pos.x as int == clamp_coord(p0.pos.x + p0.vel_x)
                &&& p1.pos.y as int == clamp_coord(p0.pos.y + p0.vel_y)
                &&& p1.vel_x == p0.vel_x
                &&& p1.vel_y == p0.vel_y
                &&& p1.half == p0.half
            },
{
    let n = projectiles.len();
    let mut i: usize = 0;
    while i < n
        invariant
            n == projectiles.len(),
            i <= n,
            forall|j: int| i <= j < n ==> #[trigger] projectiles@[j] == old(projectiles)@[j],
            forall|j: int| i <= j < n ==> (#[trigger] projectiles@[j]).wf(),
            forall|j: int|
                0 <= j < i ==> {
                    let p0 = old(projectiles)@[j];
                    let p1 = #[trigger] projectiles@[j];
                    &&& p1.wf()
                    &&& p1.pos.x as int == clamp_coord(p0.pos.x + p0.vel_x)
                    &&& p1.pos.y as int == clamp_coord(p0.pos.y + p0.vel_y)
                    &&& p1.vel_x == p0.vel_x
                    &&& p1.vel_y == p0.vel_y
                    &&& p1.half == p0.half
                },
        decreases n - i,
    {
        let p = projectiles[i];
        let moved = Projectile {
            pos: Pos { x: clamped(p.pos.x + p.vel_x), y: clamped(p.pos.y + p.vel_y) },
            vel_x: p.vel_x,
            vel_y: p.vel_y,
            half: p.half,
        };
        projectiles.set(i, moved);
        i = i + 1;
    }
}

pub proof fn lemma_occupied_push(s: Seq<EnemySlot>, e: EnemySlot)
    ensures
        occupied_count(s.push(e)) == occupied_count(s) + (if e.entry is Some {
            1int
        } else {
            0int
        }),
    decreases s.len(),
{
    assert(s.push(e).len() == s.len() + 1);
    if s.len() == 0 {
        assert(s.push(e).first() == e);
        assert(s.push(e).drop_first() =~= Seq::<EnemySlot>::empty());
        assert(occupied_count(s.push(e).drop_first()) == 0);
    } else {
        assert(s.push(e).first() == s.first());
        assert(s.push(e).drop_first() =~= s.drop_first().push(e));
        lemma_occupied_push(s.drop_first(), e);
    }
}

pub proof fn lemma_occupied_update(s: Seq<EnemySlot>, i: int, e: EnemySlot)
    requires
        0 <= i < s.len(),
        s[i].entry is None,
        e.entry is Some,
    ensures
        occupied_count(s.update(i, e)) == occupied_count(s) + 1,
    decreases s.len(),
{
    if i == 0 {
        assert(s.update(0, e).first() == e);
        assert(s.update(0, e).drop_first() =~= s.drop_first());
    } else {
        assert(s.update(i, e).first() == s.first());
        assert(s.update(i, e).drop_first() =~= s.drop_first().update(i - 1, e));
        lemma_occupied_update(s.drop_first(), i - 1, e);
    }
}

pub proof fn lemma_occupied_take_snoc(s: Seq<EnemySlot>, j: int)
    requires
        0 <= j < s.len(),
    ensures
        occupied_count(s.take(j + 1)) == occupied_count(s.take(j)) + (if s[j].entry is Some {
            1int
        } else {
            0int
        }),
{
    assert(s.take(j + 1) =~= s.take(j).push(s[j]));
    lemma_occupied_push(s.take(j), s[j]);
}

pub proof fn lemma_occupied_bounds(s: Seq<EnemySlot>)
    ensures
        0 <= occupied_count(s) <= s.len(),
    decreases s.len(),
{
    if s.len() > 0 {
        lemma_occupied_bounds(s.drop_first());
    }
}

pub proof fn lemma_occupied_all_some(s: Seq<EnemySlot>)
    requires
        forall|i: int| 0 <= i < s.len() ==> (#[trigger] s[i]).entry is Some,
    ensures
        occupied_count(s) == s.len(),
    decreases s.len(),
{
    if s.len() > 0 {
        assert(forall|i: int|
            0 <= i < s.drop_first().len() ==> (#[trigger] s.drop_first()[i]).entry is Some);
        lemma_occupied_all_some(s.drop_first());
    }
}

/// Counts the occupied slots of the arena.
pub fn count_occupied(enemies: &Vec<EnemySlot>) -> (r: usize)
    ensures
        r as int == occupied_count(enemies@),
{
    let n = enemies.len();
    let mut count: usize = 0;
    let mut i: usize = 0;
    proof {
        assert(enemies@.take(0) =~= Seq::<EnemySlot>::empty());
    }
    while i < n
        invariant
            n == enemies@.len(),
            i <= n,
            count <= i,
            count as int == occupied_count(enemies@.take(i as int)),
        decreases n - i,
    {
        proof {
            lemma_occupied_take_snoc(enemies@, i as int);
        }
        if enemies[i].entry.is_some() {
            count = count + 1;
        }
        i = i + 1;
    }
    proof {
        assert(enemies@.take(n as int) =~= enemies@);
    }
    count
}

/// A fresh enemy slot generation: one above the old, held at the top of the
/// counter's range.
pub open spec fn bumped_gen(g: u64) -> int {
    if g < u64::MAX {
        g + 1
    } else {
        g as int
    }
}

/// A slot holds a newly spawned enemy: full health, the standard hitbox, and
/// a position with both coordinates inside the spawn range.
pub open spec fn freshly_spawned(e: Enemy) -> bool {
    &&& e.health == ENEMY_START_HEALTH
    &&& e.half == ENEMY_HALF_SIZE
    &&& 0 <= e.pos.x < SPAWN_RANGE
    &&& 0 <= e.pos.y < SPAWN_RANGE
}

/// Tops the enemy population up to the population target: cleared slots are
/// refilled first (bumping their generation), then new slots are appended,
/// each with a randomly placed fresh enemy. A population already at or above
/// the target is left alone.
pub fn enemy_spawn_system(enemies: &mut Vec<EnemySlot>)
    requires
        slots_wf(old(enemies)@),
        old(enemies)@.len() <= POPULATION_TARGET,
    ensures
        slots_wf(final(enemies)@),
        old(enemies)@.len() <= final(enemies)@.len() <= POPULATION_TARGET,
        occupied_count(final(enemies)@) == (if occupied_count(old(enemies)@)
            < POPULATION_TARGET {
            POPULATION_TARGET as int
        } else {
            occupied_count(old(enemies)@)
        }),
        forall|i: int|
            0 <= i < old(enemies)@.len() && old(enemies)@[i].entry is Some
                ==> #[trigger] final(enemies)@[i] == old(enemies)@[i],
        forall|i: int|
            0 <= i < old(enemies)@.len() && old(enemies)@[i].entry is None ==> {
                let s1 = #[trigger] final(enemies)@[i];
                s1 == old(enemies)@[i] || (s1.gen as int == bumped_gen(old(enemies)@[i].gen)
                    && (s1.entry matches Some(e) && freshly_spawned(e)))
            },
        forall|i: int|
            old(enemies)@.len() <= i < final(enemies)@.len() ==> {
                let s1 = #[trigger] final(enemies)@[i];
                s1.gen == 0 && (s1.entry matches Some(e) && freshly_spawned(e))
            },
{
    let n = enemies.len();
    let mut occupied = count_occupied(enemies);
    proof {
        lemma_occupied_bounds(enemies@);
    }
    let mut i: usize = 0;
    while i < n && occupied < POPULATION_TARGET
        invariant
            n == enemies@.len(),
            n == old(enemies)@.len(),
            n <= POPULATION_TARGET,
            i <= n,
            slots_wf(enemies@),
            occupied as int == occupied_count(enemies@),
            occupied <= POPULATION_TARGET,
            forall|j: int| 0 <= j < i ==> (#[trigger] enemies@[j]).entry is Some,
            forall|j: int| i <= j < n ==> #[trigger] enemies@[j] == old(enemies)@[j],
            forall|j: int|
                0 <= j < n && old(enemies)@[j].entry is Some ==> #[trigger] enemies@[j] == old(
                    enemies,
                )@[j],
            forall|j: int|
                0 <= j < n && old(enemies)@[j].entry is None ==> {
                    let s1 = #[trigger] enemies@[j];
                    s1 == old(enemies)@[j] || (s1.gen as int == bumped_gen(old(enemies)@[j].gen)
                        && (s1.entry matches Some(e) && freshly_spawned(e)))
                },
        decreases n - i,
    {
        let slot = enemies[i];
        if slot.entry.is_none() {
            let x = random_below(SPAWN_RANGE);
            let y = random_below(SPAWN_RANGE);
            let gen = if slot.gen < u64::MAX {
                slot.gen + 1
            } else {
                slot.gen
            };
            let fresh = EnemySlot {
                gen,
                entry: Some(
                    Enemy {
                        pos: Pos { x, y },
                        half: ENEMY_HALF_SIZE,
                        health: ENEMY_START_HEALTH,
                    },
                ),
            };
            proof {
                lemma_occupied_update(enemies@, i as int, fresh);
            }
            enemies.set(i, fresh);
            occupied = occupied + 1;
        }
        i = i + 1;
    }
    proof {
        if occupied < POPULATION_TARGET {
            lemma_occupied_all_some(enemies@);
        }
    }
    while occupied < POPULATION_TARGET
        invariant
            n == old(enemies)@.len(),
            n <= enemies@.len() <= POPULATION_TARGET,
            slots_wf(enemies@),
            occupied as int == occupied_count(enemies@),
            occupied <= POPULATION_TARGET,
            occupied < POPULATION_TARGET ==> occupied as int == enemies@.len(),
            forall|j: int|
                0 <= j < n && old(enemies)@[j].entry is Some ==> #[trigger] enemies@[j] == old(
                    enemies,
                )@[j],
            forall|j: int|
                0 <= j < n && old(enemies)@[j].entry is None ==> {
                    let s1 = #[trigger] enemies@[j];
                    s1 == old(enemies)@[j] || (s1.gen as int == bumped_gen(old(enemies)@[j].gen)
                        && (s1.entry matches Some(e) && freshly_spawned(e)))
                },
            forall|j: int|
                n <= j < enemies@.len() ==> {
                    let s1 = #[trigger] enemies@[j];
                    s1.gen == 0 && (s1.entry matches Some(e) && freshly_spawned(e))
                },
        decreases POPULATION_TARGET - occupied,
    {
        let x = random_below(SPAWN_RANGE);
        let y = random_below(SPAWN_RANGE);
        let fresh = EnemySlot {
            gen: 0,
            entry: Some(
                Enemy { pos: Pos { x, y }, half: ENEMY_HALF_SIZE, health: ENEMY_START_HEALTH },
            ),
        };
        proof {
            lemma_occupied_push(enemies@, fresh);
        }
        enemies.push(fresh);
        occupied = occupied + 1;
    }
}

} // verus!
