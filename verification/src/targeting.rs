//! The targeting and cooldown controller. Each tick advances the weapon
//! timer; on a fire the nearest living enemy by Manhattan distance is chosen
//! (ties go to the first in enumeration order, which is stable slot order)
//! and a projectile is spawned at the player's position, aimed at it. With
//! no enemy alive the aim falls back to a random point drawn from the unit
//! square — a quirk kept as designed, not a uniform direction on the circle.

use crate::entities::{
    EnemySlot, Player, Projectile, slots_wf, FALLBACK_DIR_RANGE, MAX_PROJECTILES, PROJECTILE_SPEED,
    PROJECTILE_HALF_SIZE,
};
use crate::geometry::{iabs, in_world, manhattan, scale_dir, scaled_step, spec_manhattan, Pos};
use crate::rng::random_below;
use crate::timer::MAX_DELTA;
use vstd::prelude::*;

verus! {

/// Slot `i` holds the enemy a fired projectile is aimed at: it is occupied,
/// no occupied slot is strictly nearer to `from`, and every occupied slot
/// before it is strictly farther (the first minimum wins).
pub open spec fn is_first_closest(slots: Seq<EnemySlot>, from: Pos, i: int) -> bool {
    &&& 0 <= i < slots.len()
    &&& slots[i].entry is Some
    &&& forall|j: int|
        0 <= j < slots.len() && (#[trigger] slots[j]).entry is Some ==> spec_manhattan(
            from,
            slots[i].entry->Some_0.pos,
        ) <= spec_manhattan(from, slots[j].entry->Some_0.pos)
    &&& forall|j: int|
        0 <= j < i && (#[trigger] slots[j]).entry is Some ==> spec_manhattan(
            from,
            slots[j].entry->Some_0.pos,
        ) > spec_manhattan(from, slots[i].entry->Some_0.pos)
}

/// Finds the first nearest occupied slot by Manhattan distance, or nothing
/// when the arena holds no enemy.
pub fn closest_enemy(enemies: &Vec<EnemySlot>, from: Pos) -> (r: Option<usize>)
    requires
        slots_wf(enemies@),
        in_world(from),
    ensures
        r is None <==> (forall|i: int|
            0 <= i < enemies@.len() ==> (#[trigger] enemies@[i]).entry is None),
        r matches Some(i) ==> is_first_closest(enemies@, from, i as int),
{
    let n = enemies.len();
    let mut best: Option<usize> = None;
    let mut best_dist: i64 = 0;
    let mut i: usize = 0;
    while i < n
        invariant
            n == enemies@.len(),
            i <= n,
            slots_wf(enemies@),
            in_world(from),
            best is None ==> (forall|j: int|
                0 <= j < i ==> (#[trigger] enemies@[j]).entry is None),
            best matches Some(b) ==> {
                &&& (b as int) < i
                &&& enemies@[b as int].entry is Some
                &&& best_dist as int == spec_manhattan(from, enemies@[b as int].entry->Some_0.pos)
                &&& forall|j: int|
                    0 <= j < i && (#[trigger] enemies@[j]).entry is Some ==> (best_dist as int)
                        <= spec_manhattan(from, enemies@[j].entry->Some_0.pos)
                &&& forall|j: int|
                    0 <= j < b && (#[trigger] enemies@[j]).entry is Some ==> (best_dist as int)
                        < spec_manhattan(from, enemies@[j].entry->Some_0.pos)
            },
        decreases n - i,
    {
        match enemies[i].entry {
            Some(e) => {
                let d = manhattan(from, e.pos);
                match best {
                    None => {
                        best = Some(i);
                        best_dist = d;
                    },
                    Some(_) => {
                        if d < best_dist {
                            best = Some(i);
                            best_dist = d;
                        }
                    },
                }
            },
            None => {},
        }
        i = i + 1;
    }
    best
}

/// The x component of a projectile velocity of Manhattan magnitude `speed`
/// aimed along `(dx, dy)`; a degenerate zero direction falls back to the
/// positive x axis.
pub open spec fn aim_x(dx: int, dy: int, speed: int) -> int {
    if dx == 0 && dy == 0 {
        speed
    } else {
        scaled_step(dx, iabs(dx) + iabs(dy), speed)
    }
}

/// The y component of the same velocity.
pub open spec fn aim_y(dx: int, dy: int, speed: int) -> int {
    if dx == 0 && dy == 0 {
        0
    } else {
        scaled_step(dy, iabs(dx) + iabs(dy), speed)
    }
}

/// Whether `p` is the projectile that a fire from `from` aimed along
/// `(dx, dy)` spawns.
pub open spec fn spawned_projectile(p: Projectile, from: Pos, dx: int, dy: int) -> bool {
    &&& p.pos == from
    &&& p.half == PROJECTILE_HALF_SIZE
    &&& p.vel_x as int == aim_x(dx, dy, PROJECTILE_SPEED as int)
    &&& p.vel_y as int == aim_y(dx, dy, PROJECTILE_SPEED as int)
}

/// Advances the weapon cooldown by the tick's elapsed time; when it crosses
/// its interval it fires exactly once: one projectile spawns at the player's
/// position, aimed at the first nearest enemy, or along a random fallback
/// direction from the unit square when no enemy is alive. At the projectile
/// cap the weapon holds fire.
pub fn player_attack_system(
    player: &mut Player,
    enemies: &Vec<EnemySlot>,
    projectiles: &mut Vec<Projectile>,
    delta: u64,
)
    requires
        old(player).wf(),
        slots_wf(enemies@),
        delta <= MAX_DELTA,
    ensures
        final(player).wf(),
        final(player).pos == old(player).pos,
        final(player).health == old(player).health,
        final(player).half == old(player).half,
        final(player).move_speed == old(player).move_speed,
        final(player).weapons.wand.interval == old(player).weapons.wand.interval,
        final(player).weapons.wand.elapsed as int == (old(player).weapons.wand.elapsed + delta) % (
        old(player).weapons.wand.interval as int),
        ({
            let fired = old(player).weapons.wand.elapsed + delta
                >= old(player).weapons.wand.interval;
            &&& (!fired || old(projectiles)@.len() >= MAX_PROJECTILES ==> final(projectiles)@
                == old(projectiles)@)
            &&& (fired && old(projectiles)@.len() < MAX_PROJECTILES ==> {
                &&& final(projectiles)@.len() == old(projectiles)@.len() + 1
                &&& final(projectiles)@.take(old(projectiles)@.len() as int) == old(projectiles)@
                &&& ({
                    let p = final(projectiles)@.last();
                    &&& p.wf()
                    &&& ((exists|i: int|
                        0 <= i < enemies@.len() && (#[trigger] enemies@[i]).entry is Some)
                        ==> exists|i: int|
                        #[trigger] is_first_closest(enemies@, old(player).pos, i)
                            && spawned_projectile(
                            p,
                            old(player).pos,
                            enemies@[i].entry->Some_0.pos.x - old(player).pos.x,
                            enemies@[i].entry->Some_0.pos.y - old(player).pos.y,
                        ))
                    &&& ((forall|i: int|
                        0 <= i < enemies@.len() ==> (#[trigger] enemies@[i]).entry is None)
                        ==> exists|rx: int, ry: int|
                        0 <= rx < FALLBACK_DIR_RANGE && 0 <= ry < FALLBACK_DIR_RANGE
                            && spawned_projectile(p, old(player).pos, rx, ry))
                })
            })
        }),
{
    let fired = player.weapons.wand.tick(delta);
    if fired && projectiles.len() < MAX_PROJECTILES {
        let from = player.pos;
        let ghost projs0 = projectiles@;
        let target = closest_enemy(enemies, from);
        match target {
            Some(i) => {
                let e = match enemies[i].entry {
                    Some(e) => e,
                    None => {
                        proof {
                            assert(false);
                        }
                        return ;
                    },
                };
                let dx = e.pos.x - from.x;
                let dy = e.pos.y - from.y;
                let (vx, vy) = scale_dir(dx, dy, PROJECTILE_SPEED);
                let p = Projectile { pos: from, vel_x: vx, vel_y: vy, half: PROJECTILE_HALF_SIZE };
                projectiles.push(p);
                proof {
                    assert(projectiles@.take(projs0.len() as int) =~= projs0);
                    assert(projectiles@.last() == p);
                    assert(is_first_closest(enemies@, from, i as int));
                    assert(spawned_projectile(
                        p,
                        from,
                        enemies@[i as int].entry->Some_0.pos.x - from.x,
                        enemies@[i as int].entry->Some_0.pos.y - from.y,
                    ));
                }
            },
            None => {
                let rx = random_below(FALLBACK_DIR_RANGE);
                let ry = random_below(FALLBACK_DIR_RANGE);
                let (vx, vy) = scale_dir(rx, ry, PROJECTILE_SPEED);
                let p = Projectile { pos: from, vel_x: vx, vel_y: vy, half: PROJECTILE_HALF_SIZE };
                projectiles.push(p);
                proof {
                    assert(projectiles@.take(projs0.len() as int) =~= projs0);
                    assert(projectiles@.last() == p);
                    assert(spawned_projectile(p, from, rx as int, ry as int));
                }
            },
        }
    }
}

} // verus!
