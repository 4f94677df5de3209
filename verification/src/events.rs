//! Tick-scoped events and the damage-accumulation arithmetic. A hit event
//! names its target and a positive damage magnitude; a kill event names the
//! enemy that died. Both are produced in one stage of a tick and consumed by
//! a strictly later stage of the same tick.

use vstd::prelude::*;
use vstd::seq_lib::to_multiset_contains;
use vstd::seq_lib::to_multiset_remove;

verus! {

/// An enemy's slot in the arena plus the generation the slot had when the
/// enemy was placed: a stale id (the slot was since cleared or reused) never
/// aliases a live enemy.
#[derive(Clone, Copy, PartialEq, Eq, Structural, Debug)]
pub struct EnemyId {
    pub index: usize,
    pub gen: u64,
}

/// The target of a damage event: the single player, or one enemy.
#[derive(Clone, Copy, PartialEq, Eq, Structural, Debug)]
pub enum EntityId {
    Player,
    Enemy(EnemyId),
}

/// One damage event: `damage` is taken from the target's health this tick.
#[derive(Clone, Copy, PartialEq, Eq, Structural, Debug)]
pub struct HitEvent {
    pub target: EntityId,
    pub damage: u32,
}

/// One death: produced exactly once per enemy whose health crossed zero,
/// and it triggers exactly one loot roll.
#[derive(Clone, Copy, PartialEq, Eq, Structural, Debug)]
pub struct KillEvent {
    pub target: EnemyId,
}

/// The unrecoverable misconfigurations of the pipeline. A damage event
/// against a stale target is a silent no-op, but these two surface at once.
#[derive(Clone, Copy, PartialEq, Eq, Structural, Debug)]
pub enum SimError {
    /// A guaranteed draw was demanded from a weighted table with no entries.
    EmptyWeightedTable,
    /// A death event named an enemy whose position is no longer readable, so
    /// the loot cannot be placed: the stage order was violated.
    StaleDeathEvent,
}

/// The total damage the events deal to one target.
pub open spec fn damage_total(events: Seq<HitEvent>, target: EntityId) -> int
    decreases events.len(),
{
    if events.len() == 0 {
        0
    } else {
        (if events.first().target == target {
            events.first().damage as int
        } else {
            0
        }) + damage_total(events.drop_first(), target)
    }
}

pub proof fn lemma_damage_total_push(events: Seq<HitEvent>, e: HitEvent, target: EntityId)
    ensures
        damage_total(events.push(e), target) == damage_total(events, target) + (
        if e.target == target {
            e.damage as int
        } else {
            0
        }),
    decreases events.len(),
{
    assert(events.push(e).len() == events.len() + 1);
    if events.len() == 0 {
        assert(events.push(e).first() == e);
        assert(events.push(e).drop_first() =~= Seq::<HitEvent>::empty());
        assert(damage_total(events.push(e).drop_first(), target) == 0);
    } else {
        assert(events.push(e).first() == events.first());
        assert(events.push(e).drop_first() =~= events.drop_first().push(e));
        lemma_damage_total_push(events.drop_first(), e, target);
        assert(damage_total(events.push(e), target) == (if events.first().target == target {
            events.first().damage as int
        } else {
            0
        }) + damage_total(events.push(e).drop_first(), target));
    }
}

pub proof fn lemma_damage_total_nonneg(events: Seq<HitEvent>, target: EntityId)
    ensures
        0 <= damage_total(events, target),
    decreases events.len(),
{
    if events.len() > 0 {
        lemma_damage_total_nonneg(events.drop_first(), target);
    }
}

pub proof fn lemma_damage_total_remove(events: Seq<HitEvent>, i: int, target: EntityId)
    requires
        0 <= i < events.len(),
    ensures
        damage_total(events.remove(i), target) == damage_total(events, target) - (
        if events[i].target == target {
            events[i].damage as int
        } else {
            0
        }),
    decreases events.len(),
{
    if i == 0 {
        assert(events.remove(0) =~= events.drop_first());
    } else {
        assert(events.remove(i).first() == events.first());
        assert(events.remove(i).drop_first() =~= events.drop_first().remove(i - 1));
        lemma_damage_total_remove(events.drop_first(), i - 1, target);
    }
}

/// The order in which same-tick damage events are applied never matters:
/// two batches holding the same events in any two orders deal every target
/// the same total, so a health of `h` ends at `h - D` and a death (the total
/// reaching the health) fires under the one exactly when it fires under the
/// other.
pub proof fn lemma_damage_total_order_irrelevant(
    a: Seq<HitEvent>,
    b: Seq<HitEvent>,
    target: EntityId,
)
    requires
        a.to_multiset() == b.to_multiset(),
    ensures
        damage_total(a, target) == damage_total(b, target),
    decreases a.len(),
{
    vstd::seq_lib::to_multiset_len(a);
    vstd::seq_lib::to_multiset_len(b);
    if a.len() > 0 {
        let e = a.first();
        to_multiset_contains(a, e);
        to_multiset_contains(b, e);
        assert(a.contains(e));
        assert(a.to_multiset().count(e) > 0);
        assert(b.contains(e));
        let j = choose|j: int| 0 <= j < b.len() && b[j] == e;
        to_multiset_remove(a, 0);
        to_multiset_remove(b, j);
        assert(a.remove(0).to_multiset() == b.remove(j).to_multiset());
        lemma_damage_total_order_irrelevant(a.remove(0), b.remove(j), target);
        lemma_damage_total_remove(a, 0, target);
        lemma_damage_total_remove(b, j, target);
    } else {
        assert(b.len() == 0);
    }
}

} // verus!
