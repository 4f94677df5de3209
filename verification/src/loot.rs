//! The loot drop engine and the animation driver. Every kill event rolls a
//! drop category on one weighted table and, on a gem, a value tier on a
//! second one; the reward is placed at the dead enemy's last-known position.
//! A kill whose enemy can no longer be found is a fatal misconfiguration:
//! the stage order was violated, and the engine fails loudly instead of
//! skipping the drop.

use crate::entities::{EnemySlot, Loot, LootType, GemValue, slots_wf, LOOT_HALF_SIZE};
use crate::events::{KillEvent, SimError};
use crate::geometry::{in_world, Pos};
use crate::timer::MAX_DELTA;
use crate::wheel::{lemma_weight_sum_push, weight_sum, WeightedTable};
use vstd::prelude::*;

verus! {

/// Payload codes the drop-category table holds.
pub const CAT_NOTHING: u32 = 0;

pub const CAT_GEM: u32 = 1;

pub const CAT_COIN: u32 = 2;

/// Payload codes the gem-tier table holds.
pub const TIER_LOW: u32 = 0;

pub const TIER_MEDIUM: u32 = 1;

pub const TIER_HIGH: u32 = 2;

/// Drop-category weights: nothing, gem and coin in the ratio 10 : 10 : 5.
pub const DROP_NOTHING_WEIGHT: u64 = 10;

pub const DROP_GEM_WEIGHT: u64 = 10;

pub const DROP_COIN_WEIGHT: u64 = 5;

/// Gem-tier weights, biased heavily toward low: 100 : 10 : 1.
pub const GEM_LOW_WEIGHT: u64 = 100;

pub const GEM_MEDIUM_WEIGHT: u64 = 10;

pub const GEM_HIGH_WEIGHT: u64 = 1;

/// The gem value a tier code stands for.
pub open spec fn tier_value(tier: u32) -> GemValue {
    if tier == TIER_LOW {
        GemValue::Low
    } else if tier == TIER_MEDIUM {
        GemValue::Medium
    } else {
        GemValue::High
    }
}

/// What a pair of roll outcomes spawns: nothing, a coin, or a gem of the
/// rolled tier.
pub open spec fn rolled_loot(category: u32, tier: u32) -> Option<LootType> {
    if category == CAT_NOTHING {
        None
    } else if category == CAT_COIN {
        Some(LootType::Coin)
    } else {
        Some(LootType::Gem(tier_value(tier)))
    }
}

/// Builds the reward that a pair of roll outcomes places at `pos`. This is
/// the deterministic tail of a drop roll: the random draws happen before it,
/// and it is fully pinned down for every outcome they can produce.
pub fn loot_for_rolls(category: u32, tier: u32, pos: Pos) -> (r: Option<Loot>)
    requires
        in_world(pos),
        category == CAT_NOTHING || category == CAT_GEM || category == CAT_COIN,
        tier == TIER_LOW || tier == TIER_MEDIUM || tier == TIER_HIGH,
    ensures
        r is None <==> rolled_loot(category, tier) is None,
        r matches Some(l) ==> rolled_loot(category, tier) == Some(l.kind) && l.pos == pos
            && l.half == LOOT_HALF_SIZE && l.anim.frame == 0 && l.wf(),
{
    if category == CAT_NOTHING {
        None
    } else if category == CAT_COIN {
        Some(Loot::new(LootType::Coin, pos))
    } else {
        let value = if tier == TIER_LOW {
            GemValue::Low
        } else if tier == TIER_MEDIUM {
            GemValue::Medium
        } else {
            GemValue::High
        };
        Some(Loot::new(LootType::Gem(value), pos))
    }
}

/// Rolls the two-stage weighted tables for one death at `pos`: first the
/// drop category, then — only on a gem — the value tier. Both tables are
/// filled with their required entries before the draw, so the draw is owed;
/// an empty draw still maps to the fatal error instead of a crash.
pub fn roll_drop(pos: Pos) -> (r: Result<Option<Loot>, SimError>)
    requires
        in_world(pos),
    ensures
        r is Ok,
        r matches Ok(opt) ==> (opt matches Some(l) ==> l.wf() && l.pos == pos && l.half
            == LOOT_HALF_SIZE),
{
    let mut category_wheel = WeightedTable::new();
    proof {
        assert(weight_sum(category_wheel@) == 0);
        lemma_weight_sum_push(category_wheel@, (DROP_NOTHING_WEIGHT, CAT_NOTHING));
    }
    category_wheel.push(DROP_NOTHING_WEIGHT, CAT_NOTHING);
    proof {
        lemma_weight_sum_push(category_wheel@, (DROP_GEM_WEIGHT, CAT_GEM));
    }
    category_wheel.push(DROP_GEM_WEIGHT, CAT_GEM);
    proof {
        lemma_weight_sum_push(category_wheel@, (DROP_COIN_WEIGHT, CAT_COIN));
    }
    category_wheel.push(DROP_COIN_WEIGHT, CAT_COIN);
    let ghost cat_cards = category_wheel@;
    proof {
        assert(cat_cards.len() == 3);
        assert(cat_cards[0] == (DROP_NOTHING_WEIGHT, CAT_NOTHING));
        assert(cat_cards[1] == (DROP_GEM_WEIGHT, CAT_GEM));
        assert(cat_cards[2] == (DROP_COIN_WEIGHT, CAT_COIN));
    }
    let category = match category_wheel.pop_required() {
        Ok((_, code)) => code,
        Err(e) => {
            return Err(e);
        },
    };
    proof {
        let i = choose|i: int|
            0 <= i < cat_cards.len() && cat_cards[i].1 == category;
        assert(category == CAT_NOTHING || category == CAT_GEM || category == CAT_COIN);
    }
    let tier = if category == CAT_GEM {
        let mut tier_wheel = WeightedTable::new();
        proof {
            assert(weight_sum(tier_wheel@) == 0);
            lemma_weight_sum_push(tier_wheel@, (GEM_LOW_WEIGHT, TIER_LOW));
        }
        tier_wheel.push(GEM_LOW_WEIGHT, TIER_LOW);
        proof {
            lemma_weight_sum_push(tier_wheel@, (GEM_MEDIUM_WEIGHT, TIER_MEDIUM));
        }
        tier_wheel.push(GEM_MEDIUM_WEIGHT, TIER_MEDIUM);
        proof {
            lemma_weight_sum_push(tier_wheel@, (GEM_HIGH_WEIGHT, TIER_HIGH));
        }
        tier_wheel.push(GEM_HIGH_WEIGHT, TIER_HIGH);
        let ghost tier_cards = tier_wheel@;
        proof {
            assert(tier_cards.len() == 3);
            assert(tier_cards[0] == (GEM_LOW_WEIGHT, TIER_LOW));
            assert(tier_cards[1] == (GEM_MEDIUM_WEIGHT, TIER_MEDIUM));
            assert(tier_cards[2] == (GEM_HIGH_WEIGHT, TIER_HIGH));
        }
        let t = match tier_wheel.pop_required() {
            Ok((_, code)) => code,
            Err(e) => {
                return Err(e);
            },
        };
        proof {
            let i = choose|i: int|
                0 <= i < tier_cards.len() && tier_cards[i].1 == t;
            assert(t == TIER_LOW || t == TIER_MEDIUM || t == TIER_HIGH);
        }
        t
    } else {
        TIER_LOW
    };
    Ok(loot_for_rolls(category, tier, pos))
}

/// Every kill names a slot the dead enemy still occupies, with the
/// generation it was killed under, and no slot twice.
pub open spec fn kills_resolvable(kills: Seq<KillEvent>, slots: Seq<EnemySlot>) -> bool {
    &&& forall|k: int|
        0 <= k < kills.len() ==> {
            let id = (#[trigger] kills[k]).target;
            &&& id.index < slots.len()
            &&& slots[id.index as int].gen == id.gen
            &&& slots[id.index as int].entry is Some
        }
    &&& forall|k1: int, k2: int|
        0 <= k1 < k2 < kills.len() ==> (#[trigger] kills[k1]).target.index != (
        #[trigger] kills[k2]).target.index
}

/// Drains the tick's kill events. For each one the dead enemy's last-known
/// position is read, the slot is cleared, the two-stage tables are rolled,
/// and the reward — if the category roll is not "nothing" — is appended to
/// the loot at that position. A kill whose enemy cannot be found (and so
/// whose position cannot be read) is the fatal stale-death error: it
/// succeeds if and only if every kill resolves.
pub fn loot_drop_system(
    enemies: &mut Vec<EnemySlot>,
    loots: &mut Vec<Loot>,
    kills: &Vec<KillEvent>,
) -> (r: Result<usize, SimError>)
    requires
        slots_wf(old(enemies)@),
        forall|i: int| 0 <= i < old(loots)@.len() ==> (#[trigger] old(loots)@[i]).wf(),
    ensures
        r is Ok <==> kills_resolvable(kills@, old(enemies)@),
        r matches Err(e) ==> e == SimError::StaleDeathEvent,
        r is Ok ==> {
            &&& final(enemies)@.len() == old(enemies)@.len()
            &&& slots_wf(final(enemies)@)
            &&& forall|k: int|
                0 <= k < kills@.len() ==> {
                    let id = (#[trigger] kills@[k]).target;
                    final(enemies)@[id.index as int] == (EnemySlot { gen: id.gen, entry: None })
                }
            &&& forall|i: int|
                0 <= i < old(enemies)@.len() && (forall|k: int|
                    0 <= k < kills@.len() ==> (#[trigger] kills@[k]).target.index != i)
                    ==> #[trigger] final(enemies)@[i] == old(enemies)@[i]
            &&& old(loots)@.len() <= final(loots)@.len() <= old(loots)@.len() + kills@.len()
            &&& final(loots)@.take(old(loots)@.len() as int) == old(loots)@
            &&& r == Ok::<usize, SimError>((final(loots)@.len() - old(loots)@.len()) as usize)
            &&& forall|j: int|
                old(loots)@.len() <= j < final(loots)@.len() ==> {
                    let l = #[trigger] final(loots)@[j];
                    l.wf() && (exists|k: int|
                        0 <= k < kills@.len() && (old(enemies)@[(#[trigger] kills@[k]).target.index as int].entry
                            matches Some(e) && l.pos == e.pos))
                }
        },
{
    let ghost slots0 = old(enemies)@;
    let ghost loots0 = old(loots)@;
    let n = enemies.len();
    let m = kills.len();
    let mut k: usize = 0;
    let mut spawned: usize = 0;
    proof {
        assert(loots0.take(loots0.len() as int) =~= loots0);
    }
    while k < m
        invariant
            m == kills@.len(),
            n == enemies@.len(),
            n == slots0.len(),
            slots0 == old(enemies)@,
            loots0 == old(loots)@,
            k <= m,
            slots_wf(enemies@),
            forall|k1: int|
                0 <= k1 < k ==> {
                    let id = (#[trigger] kills@[k1]).target;
                    &&& id.index < slots0.len()
                    &&& slots0[id.index as int].gen == id.gen
                    &&& slots0[id.index as int].entry is Some
                },
            forall|k1: int, k2: int|
                0 <= k1 < k2 < k ==> (#[trigger] kills@[k1]).target.index != (
                #[trigger] kills@[k2]).target.index,
            forall|k1: int|
                0 <= k1 < k ==> {
                    let id = (#[trigger] kills@[k1]).target;
                    enemies@[id.index as int] == (EnemySlot { gen: id.gen, entry: None })
                },
            forall|i: int|
                0 <= i < n && (forall|k1: int|
                    0 <= k1 < k ==> (#[trigger] kills@[k1]).target.index != i)
                    ==> #[trigger] enemies@[i] == slots0[i],
            loots0.len() <= loots@.len() <= loots0.len() + k,
            spawned as int == loots@.len() - loots0.len(),
            loots@.take(loots0.len() as int) == loots0,
            forall|j: int|
                loots0.len() <= j < loots@.len() ==> {
                    let l = #[trigger] loots@[j];
                    l.wf() && (exists|k1: int|
                        0 <= k1 < kills@.len() && (slots0[(#[trigger] kills@[k1]).target.index as int].entry
                            matches Some(e) && l.pos == e.pos))
                },
        decreases m - k,
    {
        let kill = kills[k];
        let id = kill.target;
        if id.index >= n {
            proof {
                assert(!kills_resolvable(kills@, slots0));
            }
            return Err(SimError::StaleDeathEvent);
        }
        let slot = enemies[id.index];
        proof {
            if exists|k1: int| 0 <= k1 < k && (#[trigger] kills@[k1]).target.index == id.index {
                let k1 = choose|k1: int|
                    0 <= k1 < k && (#[trigger] kills@[k1]).target.index == id.index;
                let prev = kills@[k1].target;
                assert(enemies@[id.index as int] == EnemySlot { gen: prev.gen, entry: None });
                assert(enemies@[id.index as int].gen == slots0[id.index as int].gen);
            } else {
                assert(enemies@[id.index as int] == slots0[id.index as int]);
            }
            assert(enemies@[id.index as int].gen == slots0[id.index as int].gen);
        }
        if slot.gen != id.gen {
            proof {
                assert(slots0[id.index as int].gen != id.gen);
                assert(!kills_resolvable(kills@, slots0));
            }
            return Err(SimError::StaleDeathEvent);
        }
        match slot.entry {
            None => {
                proof {
                    if exists|k1: int|
                        0 <= k1 < k && (#[trigger] kills@[k1]).target.index == id.index {
                        let k1 = choose|k1: int|
                            0 <= k1 < k && (#[trigger] kills@[k1]).target.index == id.index;
                        assert(kills@[k1].target.index == kills@[k as int].target.index);
                        assert(!kills_resolvable(kills@, slots0));
                    } else {
                        assert(enemies@[id.index as int] == slots0[id.index as int]);
                        assert(slots0[id.index as int].entry is None);
                        assert(!kills_resolvable(kills@, slots0));
                    }
                }
                return Err(SimError::StaleDeathEvent);
            },
            Some(enemy) => {
                proof {
                    if exists|k1: int|
                        0 <= k1 < k && (#[trigger] kills@[k1]).target.index == id.index {
                        let k1 = choose|k1: int|
                            0 <= k1 < k && (#[trigger] kills@[k1]).target.index == id.index;
                        assert(enemies@[id.index as int].entry is None);
                        assert(false);
                    }
                    assert(enemies@[id.index as int] == slots0[id.index as int]);
                    assert(slots0[id.index as int].entry == Some(enemy));
                    assert(slots0[id.index as int].gen == id.gen);
                }
                let pos = enemy.pos;
                enemies.set(id.index, EnemySlot { gen: id.gen, entry: None });
                let dropped = match roll_drop(pos) {
                    Ok(d) => d,
                    Err(e) => {
                        return Err(e);
                    },
                };
                let ghost loots_before = loots@;
                match dropped {
                    Some(item) => {
                        loots.push(item);
                        spawned = spawned + 1;
                        proof {
                            assert(loots@ == loots_before.push(item));
                            assert(loots@.take(loots0.len() as int) =~= loots_before.take(
                                loots0.len() as int,
                            ));
                            assert forall|j: int|
                                loots0.len() <= j < loots@.len() implies {
                                let l = #[trigger] loots@[j];
                                l.wf() && (exists|k1: int|
                                    0 <= k1 < kills@.len() && (slots0[(#[trigger] kills@[k1]).target.index as int].entry
                                        matches Some(e) && l.pos == e.pos))
                            } by {
                                if j < loots_before.len() {
                                    assert(loots@[j] == loots_before[j]);
                                } else {
                                    assert(loots@[j] == item);
                                    assert(slots0[kills@[k as int].target.index as int].entry
                                        matches Some(e) && item.pos == e.pos) by {
                                        assert(slots0[kills@[k as int].target.index as int].entry
                                            == Some(enemy));
                                    }
                                }
                            }
                        }
                    },
                    None => {},
                }
            },
        }
        k = k + 1;
    }
    proof {
        assert(kills_resolvable(kills@, slots0));
    }
    Ok(spawned)
}

/// Advances every loot animation timer by the tick's elapsed time; on each
/// interval crossing the frame index moves forward by one, wrapping around
/// the frame count.
pub fn animation_system(loots: &mut Vec<Loot>, delta: u64)
    requires
        forall|i: int| 0 <= i < old(loots)@.len() ==> (#[trigger] old(loots)@[i]).wf(),
        delta <= MAX_DELTA,
    ensures
        final(loots)@.len() == old(loots)@.len(),
        forall|i: int|
            0 <= i < old(loots)@.len() ==> {
                let l0 = old(loots)@[i];
                let l1 = #[trigger] final(loots)@[i];
                &&& l1.wf()
                &&& l1.pos == l0.pos
                &&& l1.half == l0.half
                &&& l1.kind == l0.kind
                &&& l1.anim.frame_count == l0.anim.frame_count
                &&& l1.anim.timer.interval == l0.anim.timer.interval
                &&& l1.anim.timer.elapsed as int == (l0.anim.timer.elapsed + delta) % (
                l0.anim.timer.interval as int)
                &&& (l0.anim.timer.elapsed + delta >= l0.anim.timer.interval ==> l1.anim.frame
                    as int == (l0.anim.frame + 1) % (l0.anim.frame_count as int))
                &&& (l0.anim.timer.elapsed + delta < l0.anim.timer.interval ==> l1.anim.frame
                    == l0.anim.frame)
            },
{
    let n = loots.len();
    let mut i: usize = 0;
    while i < n
        invariant
            n == loots@.len(),
            i <= n,
            delta <= MAX_DELTA,
            forall|j: int| i <= j < n ==> #[trigger] loots@[j] == old(loots)@[j],
            forall|j: int| i <= j < n ==> (#[trigger] loots@[j]).wf(),
            forall|j: int|
                0 <= j < i ==> {
                    let l0 = old(loots)@[j];
                    let l1 = #[trigger] loots@[j];
                    &&& l1.wf()
                    &&& l1.pos == l0.pos
                    &&& l1.half == l0.half
                    &&& l1.kind == l0.kind
                    &&& l1.anim.frame_count == l0.anim.frame_count
                    &&& l1.anim.timer.interval == l0.anim.timer.interval
                    &&& l1.anim.timer.elapsed as int == (l0.anim.timer.elapsed + delta) % (
                    l0.anim.timer.interval as int)
                    &&& (l0.anim.timer.elapsed + delta >= l0.anim.timer.interval ==> l1.anim.frame
                        as int == (l0.anim.frame + 1) % (l0.anim.frame_count as int))
                    &&& (l0.anim.timer.elapsed + delta < l0.anim.timer.interval ==> l1.anim.frame
                        == l0.anim.frame)
                },
        decreases n - i,
    {
        let mut item = loots[i];
        item.anim.advance(delta);
        loots.set(i, item);
        i = i + 1;
    }
}

} // verus!
