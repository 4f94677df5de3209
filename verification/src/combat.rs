//! The combat event pipeline: drains the tick's damage events, applies each
//! to its target's health in arrival order, and emits exactly one kill event
//! for every enemy whose health crossed zero. A damage event naming a stale
//! target (a cleared slot, an out-of-range index, or an outdated generation)
//! is a silent no-op. Dead enemies stay in their slots, marked by their
//! non-positive health, until the loot stage reads their last position and
//! clears them; the player is never removed, death only surfaces as a signal.

use crate::entities::{Enemy, EnemySlot, Player, slots_wf};
use crate::events::{
    damage_total, lemma_damage_total_nonneg, lemma_damage_total_push, EnemyId, EntityId, HitEvent,
    KillEvent,
};
use vstd::prelude::*;

verus! {

/// Health after damage: plain subtraction, held at the bottom of the range.
pub open spec fn sat_sub(h: int, d: int) -> int {
    if h - d >= i64::MIN {
        h - d
    } else {
        i64::MIN as int
    }
}

pub proof fn lemma_sat_sub_chain(h: int, a: int, d: int)
    requires
        0 <= a,
        0 <= d,
    ensures
        sat_sub(sat_sub(h, a), d) == sat_sub(h, a + d),
{
}

/// Same-tick damage accumulates: a health of `h` hit by a batch of damage
/// events ends at `h` minus the batch's total against that target, and death
/// — the final health at or below zero — fires independent of the order in
/// which the batch is applied (`b` is any reordering of `a`). Saturation is
/// out of reach as long as the true difference stays in range.
pub proof fn lemma_damage_accumulation_order_independent(
    h: int,
    a: Seq<HitEvent>,
    b: Seq<HitEvent>,
    target: EntityId,
)
    requires
        a.to_multiset() == b.to_multiset(),
        i64::MIN <= h - damage_total(a, target),
    ensures
        sat_sub(h, damage_total(a, target)) == h - damage_total(a, target),
        sat_sub(h, damage_total(b, target)) == sat_sub(h, damage_total(a, target)),
        (sat_sub(h, damage_total(b, target)) <= 0) <==> (h - damage_total(a, target) <= 0),
{
    crate::events::lemma_damage_total_order_irrelevant(a, b, target);
}

pub proof fn lemma_damage_total_take_snoc(events: Seq<HitEvent>, j: int, target: EntityId)
    requires
        0 <= j < events.len(),
    ensures
        damage_total(events.take(j + 1), target) == damage_total(events.take(j), target) + (
        if events[j].target == target {
            events[j].damage as int
        } else {
            0
        }),
{
    assert(events.take(j + 1) =~= events.take(j).push(events[j]));
    lemma_damage_total_push(events.take(j), events[j], target);
}

/// One application of a damage magnitude to a health value.
pub fn apply_hit(h: i64, d: u32) -> (r: i64)
    ensures
        r as int == sat_sub(h as int, d as int),
{
    let di = d as i64;
    if h >= i64::MIN + di {
        h - di
    } else {
        i64::MIN
    }
}

/// The id a damage event must carry to reach the enemy in slot `i`.
pub open spec fn slot_target(slots: Seq<EnemySlot>, i: int) -> EntityId {
    EntityId::Enemy(EnemyId { index: i as usize, gen: slots[i].gen })
}

/// Drains one tick's damage events: every event lands on its target's health
/// in arrival order (stale targets are skipped), and afterwards one kill
/// event is emitted per enemy whose health ended at or below zero, in slot
/// order. The dead stay in their slots for the loot stage to clear.
pub fn enemy_damage_system(
    player: &mut Player,
    enemies: &mut Vec<EnemySlot>,
    events: &Vec<HitEvent>,
) -> (kills: Vec<KillEvent>)
    requires
        old(player).wf(),
        slots_wf(old(enemies)@),
        forall|i: int|
            0 <= i < old(enemies)@.len() ==> ((#[trigger] old(enemies)@[i]).entry matches Some(e)
                ==> e.health > 0),
    ensures
        final(player).wf(),
        final(player).health as int == sat_sub(
            old(player).health as int,
            damage_total(events@, EntityId::Player),
        ),
        final(player).pos == old(player).pos,
        final(player).move_speed == old(player).move_speed,
        final(player).half == old(player).half,
        final(player).weapons == old(player).weapons,
        slots_wf(final(enemies)@),
        final(enemies)@.len() == old(enemies)@.len(),
        forall|i: int|
            0 <= i < old(enemies)@.len() ==> {
                let s0 = old(enemies)@[i];
                let s1 = #[trigger] final(enemies)@[i];
                &&& s1.gen == s0.gen
                &&& (s0.entry is None ==> s1 == s0)
                &&& (s0.entry matches Some(e0) ==> s1.entry matches Some(e1) && e1.pos == e0.pos
                    && e1.half == e0.half && e1.health as int == sat_sub(
                    e0.health as int,
                    damage_total(events@, slot_target(old(enemies)@, i)),
                ))
            },
        forall|k: int|
            0 <= k < kills@.len() ==> {
                let id = (#[trigger] kills@[k]).target;
                &&& id.index < final(enemies)@.len()
                &&& final(enemies)@[id.index as int].gen == id.gen
                &&& final(enemies)@[id.index as int].entry matches Some(e) && e.health <= 0
            },
        forall|k1: int, k2: int|
            0 <= k1 < k2 < kills@.len() ==> (#[trigger] kills@[k1]).target.index < (
            #[trigger] kills@[k2]).target.index,
        forall|i: int|
            0 <= i < final(enemies)@.len() && ((#[trigger] final(enemies)@[i]).entry matches Some(
                e,
            ) && e.health <= 0) ==> exists|k: int|
                0 <= k < kills@.len() && (#[trigger] kills@[k]).target.index == i,
{
    let ghost slots0 = old(enemies)@;
    let n = enemies.len();
    let m = events.len();
    let mut j: usize = 0;
    proof {
        assert(events@.take(0) =~= Seq::<HitEvent>::empty());
    }
    while j < m
        invariant
            m == events@.len(),
            n == enemies@.len(),
            n == slots0.len(),
            j <= m,
            old(player).wf(),
            player.wf(),
            slots_wf(enemies@),
            player.health as int == sat_sub(
                old(player).health as int,
                damage_total(events@.take(j as int), EntityId::Player),
            ),
            player.pos == old(player).pos,
            player.move_speed == old(player).move_speed,
            player.half == old(player).half,
            player.weapons == old(player).weapons,
            forall|i: int|
                0 <= i < n ==> {
                    let s0 = slots0[i];
                    let s1 = #[trigger] enemies@[i];
                    &&& s1.gen == s0.gen
                    &&& (s0.entry is None ==> s1 == s0)
                    &&& (s0.entry matches Some(e0) ==> s1.entry matches Some(e1) && e1.pos
                        == e0.pos && e1.half == e0.half && e1.health as int == sat_sub(
                        e0.health as int,
                        damage_total(events@.take(j as int), slot_target(slots0, i)),
                    ))
                },
        decreases m - j,
    {
        let e = events[j];
        proof {
            lemma_damage_total_take_snoc(events@, j as int, EntityId::Player);
            lemma_damage_total_nonneg(events@.take(j as int), EntityId::Player);
            assert forall|i: int| 0 <= i < n implies {
                damage_total(events@.take(j as int + 1), slot_target(slots0, i)) == damage_total(
                    events@.take(j as int),
                    slot_target(slots0, i),
                ) + (if events@[j as int].target == slot_target(slots0, i) {
                    events@[j as int].damage as int
                } else {
                    0
                }) && 0 <= damage_total(events@.take(j as int), slot_target(slots0, i))
            } by {
                lemma_damage_total_take_snoc(events@, j as int, slot_target(slots0, i));
                lemma_damage_total_nonneg(events@.take(j as int), slot_target(slots0, i));
            }
        }
        match e.target {
            EntityId::Player => {
                proof {
                    lemma_sat_sub_chain(
                        old(player).health as int,
                        damage_total(events@.take(j as int), EntityId::Player),
                        e.damage as int,
                    );
                }
                player.health = apply_hit(player.health, e.damage);
            },
            EntityId::Enemy(id) => {
                if id.index < n {
                    let slot = enemies[id.index];
                    if slot.gen == id.gen {
                        match slot.entry {
                            Some(en) => {
                                proof {
                                    let s0 = slots0[id.index as int];
                                    if s0.entry is Some {
                                        lemma_sat_sub_chain(
                                            s0.entry->Some_0.health as int,
                                            damage_total(
                                                events@.take(j as int),
                                                slot_target(slots0, id.index as int),
                                            ),
                                            e.damage as int,
                                        );
                                    }
                                }
                                let updated = EnemySlot {
                                    gen: slot.gen,
                                    entry: Some(
                                        Enemy {
                                            pos: en.pos,
                                            half: en.half,
                                            health: apply_hit(en.health, e.damage),
                                        },
                                    ),
                                };
                                enemies.set(id.index, updated);
                            },
                            None => {},
                        }
                    }
                }
            },
        }
        j = j + 1;
    }
    proof {
        assert(events@.take(m as int) =~= events@);
    }
    let mut kills: Vec<KillEvent> = Vec::new();
    let mut i: usize = 0;
    while i < n
        invariant
            n == enemies@.len(),
            i <= n,
            forall|k: int|
                0 <= k < kills@.len() ==> {
                    let id = (#[trigger] kills@[k]).target;
                    &&& id.index < i
                    &&& id.index < enemies@.len()
                    &&& enemies@[id.index as int].gen == id.gen
                    &&& enemies@[id.index as int].entry matches Some(e) && e.health <= 0
                },
            forall|k1: int, k2: int|
                0 <= k1 < k2 < kills@.len() ==> (#[trigger] kills@[k1]).target.index < (
                #[trigger] kills@[k2]).target.index,
            forall|i2: int|
                0 <= i2 < i && ((#[trigger] enemies@[i2]).entry matches Some(e) && e.health <= 0)
                    ==> exists|k: int|
                    0 <= k < kills@.len() && (#[trigger] kills@[k]).target.index == i2,
        decreases n - i,
    {
        let slot = enemies[i];
        let ghost kills0 = kills@;
        match slot.entry {
            Some(en) => {
                if en.health <= 0 {
                    let kill = KillEvent { target: EnemyId { index: i, gen: slot.gen } };
                    kills.push(kill);
                    proof {
                        assert(kills@ == kills0.push(kill));
                        assert(kills@[kills0.len() as int].target.index == i as int);
                        assert forall|i2: int|
                            0 <= i2 < i + 1 && ((#[trigger] enemies@[i2]).entry matches Some(e)
                                && e.health <= 0) implies exists|k: int|
                            0 <= k < kills@.len() && (#[trigger] kills@[k]).target.index == i2 by {
                            if i2 < i {
                                let k = choose|k: int|
                                    0 <= k < kills0.len() && (#[trigger] kills0[k]).target.index
                                        == i2;
                                assert(kills@[k] == kills0[k]);
                            } else {
                                assert(kills@[kills0.len() as int].target.index == i2);
                            }
                        }
                    }
                }
            },
            None => {},
        }
        i = i + 1;
    }
    kills
}

} // verus!
