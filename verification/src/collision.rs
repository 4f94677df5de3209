//! Collision resolution: three independent pairwise scans per tick.
//! Player x enemy emits one damage event against the player per overlapping
//! enemy (uncapped by design: N overlapping enemies deal N times the touch
//! damage in one tick). Player x loot removes the loot, a pure pickup.
//! Projectile x enemy emits one damage event against the first overlapping
//! enemy in scan order and removes the projectile: one projectile scores at
//! most one hit.

use crate::combat::slot_target;
use crate::entities::{
    EnemySlot, Loot, Player, Projectile, slots_wf, PROJECTILE_DAMAGE, TOUCH_DAMAGE,
};
use crate::events::{EntityId, HitEvent};
use crate::geometry::{overlaps, spec_overlaps};
use vstd::prelude::*;

verus! {

/// The events of the player-enemy scan: one touch-damage event against the
/// player per occupied slot whose enemy overlaps the player, in slot order.
pub open spec fn player_hit_events(slots: Seq<EnemySlot>, p: Player) -> Seq<HitEvent>
    decreases slots.len(),
{
    if slots.len() == 0 {
        Seq::empty()
    } else {
        player_hit_events(slots.drop_last(), p) + (if slots.last().entry matches Some(e)
            && spec_overlaps(p.pos, p.half, e.pos, e.half) {
            seq![HitEvent { target: EntityId::Player, damage: TOUCH_DAMAGE }]
        } else {
            Seq::empty()
        })
    }
}

/// The loot that survives the pickup scan: everything not overlapping the
/// player, in order.
pub open spec fn surviving_loot(loots: Seq<Loot>, p: Player) -> Seq<Loot>
    decreases loots.len(),
{
    if loots.len() == 0 {
        Seq::empty()
    } else {
        surviving_loot(loots.drop_last(), p) + (if spec_overlaps(
            p.pos,
            p.half,
            loots.last().pos,
            loots.last().half,
        ) {
            Seq::empty()
        } else {
            seq![loots.last()]
        })
    }
}

/// Whether slot `i` holds an enemy overlapping the projectile.
pub open spec fn proj_hits_slot(slots: Seq<EnemySlot>, pr: Projectile, i: int) -> bool {
    &&& 0 <= i < slots.len()
    &&& slots[i].entry matches Some(e) && spec_overlaps(pr.pos, pr.half, e.pos, e.half)
}

/// The first slot whose enemy the projectile overlaps, if any.
pub open spec fn first_hit(slots: Seq<EnemySlot>, pr: Projectile) -> Option<int>
    decreases slots.len(),
{
    if slots.len() == 0 {
        None
    } else if slots.first().entry matches Some(e) && spec_overlaps(
        pr.pos,
        pr.half,
        e.pos,
        e.half,
    ) {
        Some(0)
    } else {
        match first_hit(slots.drop_first(), pr) {
            Some(i) => Some(i + 1),
            None => None,
        }
    }
}

/// `first_hit` is pinned down by its two defining properties: it names a
/// hit slot with no hit slot before it, and it is nothing only when no slot
/// is hit.
pub proof fn lemma_first_hit_characterization(
    slots: Seq<EnemySlot>,
    pr: Projectile,
    r: Option<int>,
)
    requires
        r matches Some(i) ==> proj_hits_slot(slots, pr, i) && (forall|j: int|
            0 <= j < i ==> !proj_hits_slot(slots, pr, j)),
        r is None ==> forall|j: int| 0 <= j < slots.len() ==> !proj_hits_slot(slots, pr, j),
    ensures
        first_hit(slots, pr) == r,
    decreases slots.len(),
{
    if slots.len() == 0 {
        assert(r is None);
    } else {
        let rest = slots.drop_first();
        assert(forall|j: int|
            0 <= j < rest.len() ==> #[trigger] proj_hits_slot(rest, pr, j) == proj_hits_slot(
                slots,
                pr,
                j + 1,
            ));
        match r {
            Some(i) => {
                if i == 0 {
                    assert(first_hit(slots, pr) == Some(0int));
                } else {
                    assert(!proj_hits_slot(slots, pr, 0));
                    lemma_first_hit_characterization(rest, pr, Some(i - 1));
                }
            },
            None => {
                assert(!proj_hits_slot(slots, pr, 0));
                lemma_first_hit_characterization(rest, pr, None);
            },
        }
    }
}

/// The events of the projectile-enemy scan, in projectile order: one event
/// of projectile damage against the first enemy each projectile overlaps.
pub open spec fn proj_hit_events(slots: Seq<EnemySlot>, projs: Seq<Projectile>) -> Seq<HitEvent>
    decreases projs.len(),
{
    if projs.len() == 0 {
        Seq::empty()
    } else {
        proj_hit_events(slots, projs.drop_last()) + (match first_hit(slots, projs.last()) {
            Some(i) => seq![
                HitEvent { target: slot_target(slots, i), damage: PROJECTILE_DAMAGE },
            ],
            None => Seq::empty(),
        })
    }
}

/// The projectiles that survive the scan: those that hit nothing, in order.
pub open spec fn surviving_projectiles(slots: Seq<EnemySlot>, projs: Seq<Projectile>) -> Seq<
    Projectile,
>
    decreases projs.len(),
{
    if projs.len() == 0 {
        Seq::empty()
    } else {
        surviving_projectiles(slots, projs.drop_last()) + (match first_hit(slots, projs.last()) {
            Some(i) => Seq::empty(),
            None => seq![projs.last()],
        })
    }
}

/// Finds the first slot whose enemy the projectile overlaps.
fn first_overlapping_enemy(enemies: &Vec<EnemySlot>, pr: &Projectile) -> (r: Option<usize>)
    requires
        slots_wf(enemies@),
        pr.wf(),
    ensures
        r matches Some(i) ==> i < enemies@.len() && first_hit(enemies@, *pr) == Some(i as int),
        r is None ==> first_hit(enemies@, *pr) is None,
{
    let n = enemies.len();
    let mut i: usize = 0;
    while i < n
        invariant
            n == enemies@.len(),
            i <= n,
            slots_wf(enemies@),
            pr.wf(),
            forall|j: int| 0 <= j < i ==> !proj_hits_slot(enemies@, *pr, j),
        decreases n - i,
    {
        match enemies[i].entry {
            Some(e) => {
                if overlaps(pr.pos, pr.half, e.pos, e.half) {
                    proof {
                        lemma_first_hit_characterization(enemies@, *pr, Some(i as int));
                    }
                    return Some(i);
                }
            },
            None => {},
        }
        i = i + 1;
    }
    proof {
        lemma_first_hit_characterization(enemies@, *pr, None);
    }
    None
}

/// Runs the tick's three scans: returns the damage events (the player-enemy
/// events first, then the projectile-enemy events), removes picked-up loot,
/// and removes every projectile that scored a hit.
pub fn collision_system(
    player: &Player,
    enemies: &Vec<EnemySlot>,
    projectiles: &mut Vec<Projectile>,
    loots: &mut Vec<Loot>,
) -> (events: Vec<HitEvent>)
    requires
        player.wf(),
        slots_wf(enemies@),
        forall|i: int| 0 <= i < old(projectiles)@.len() ==> (#[trigger] old(projectiles)@[i]).wf(),
        forall|i: int| 0 <= i < old(loots)@.len() ==> (#[trigger] old(loots)@[i]).wf(),
    ensures
        events@ == player_hit_events(enemies@, *player) + proj_hit_events(
            enemies@,
            old(projectiles)@,
        ),
        final(projectiles)@ == surviving_projectiles(enemies@, old(projectiles)@),
        final(loots)@ == surviving_loot(old(loots)@, *player),
        forall|i: int| 0 <= i < final(projectiles)@.len() ==> (#[trigger] final(projectiles)@[i]).wf(),
        forall|i: int| 0 <= i < final(loots)@.len() ==> (#[trigger] final(loots)@[i]).wf(),
{
    let mut events: Vec<HitEvent> = Vec::new();
    let n = enemies.len();

    // Player x enemy.
    let mut i: usize = 0;
    proof {
        assert(enemies@.take(0) =~= Seq::<EnemySlot>::empty());
    }
    while i < n
        invariant
            n == enemies@.len(),
            i <= n,
            player.wf(),
            slots_wf(enemies@),
            events@ == player_hit_events(enemies@.take(i as int), *player),
        decreases n - i,
    {
        proof {
            assert(enemies@.take(i as int + 1).drop_last() =~= enemies@.take(i as int));
            assert(enemies@.take(i as int + 1).last() == enemies@[i as int]);
        }
        match enemies[i].entry {
            Some(e) => {
                if overlaps(player.pos, player.half, e.pos, e.half) {
                    events.push(HitEvent { target: EntityId::Player, damage: TOUCH_DAMAGE });
                }
            },
            None => {},
        }
        i = i + 1;
    }
    proof {
        assert(enemies@.take(n as int) =~= enemies@);
    }

    // Player x loot: pickup removes the loot, no event, no damage.
    let ghost loots0 = loots@;
    let mut kept_loot: Vec<Loot> = Vec::new();
    let ln = loots.len();
    let mut j: usize = 0;
    proof {
        assert(loots0.take(0) =~= Seq::<Loot>::empty());
    }
    while j < ln
        invariant
            ln == loots@.len(),
            loots0 == loots@,
            j <= ln,
            player.wf(),
            forall|t: int| 0 <= t < loots0.len() ==> (#[trigger] loots0[t]).wf(),
            kept_loot@ == surviving_loot(loots0.take(j as int), *player),
            forall|t: int| 0 <= t < kept_loot@.len() ==> (#[trigger] kept_loot@[t]).wf(),
        decreases ln - j,
    {
        proof {
            assert(loots0.take(j as int + 1).drop_last() =~= loots0.take(j as int));
            assert(loots0.take(j as int + 1).last() == loots0[j as int]);
        }
        let item = loots[j];
        if !overlaps(player.pos, player.half, item.pos, item.half) {
            kept_loot.push(item);
        }
        j = j + 1;
    }
    proof {
        assert(loots0.take(ln as int) =~= loots0);
    }
    *loots = kept_loot;

    // Projectile x enemy: each projectile hits at most the first overlapping
    // enemy and despawns on the hit.
    let ghost projs0 = projectiles@;
    let ghost events_before = events@;
    let mut kept_projs: Vec<Projectile> = Vec::new();
    let pn = projectiles.len();
    let mut t: usize = 0;
    proof {
        assert(projs0.take(0) =~= Seq::<Projectile>::empty());
        assert(events@ == events_before + proj_hit_events(enemies@, projs0.take(0)));
    }
    while t < pn
        invariant
            pn == projectiles@.len(),
            projs0 == projectiles@,
            t <= pn,
            player.wf(),
            slots_wf(enemies@),
            forall|u: int| 0 <= u < projs0.len() ==> (#[trigger] projs0[u]).wf(),
            events_before == player_hit_events(enemies@, *player),
            events@ == events_before + proj_hit_events(enemies@, projs0.take(t as int)),
            kept_projs@ == surviving_projectiles(enemies@, projs0.take(t as int)),
            forall|u: int| 0 <= u < kept_projs@.len() ==> (#[trigger] kept_projs@[u]).wf(),
        decreases pn - t,
    {
        proof {
            assert(projs0.take(t as int + 1).drop_last() =~= projs0.take(t as int));
            assert(projs0.take(t as int + 1).last() == projs0[t as int]);
        }
        let pr = projectiles[t];
        match first_overlapping_enemy(enemies, &pr) {
            Some(hit) => {
                let slot_gen = enemies[hit].gen;
                events.push(
                    HitEvent {
                        target: EntityId::Enemy(
                            crate::events::EnemyId { index: hit, gen: slot_gen },
                        ),
                        damage: PROJECTILE_DAMAGE,
                    },
                );
                proof {
                    assert(first_hit(enemies@, projs0[t as int]) == Some(hit as int));
                    assert(slot_target(enemies@, hit as int) == EntityId::Enemy(
                        crate::events::EnemyId { index: hit, gen: slot_gen },
                    ));
                }
            },
            None => {
                kept_projs.push(pr);
            },
        }
        t = t + 1;
    }
    proof {
        assert(projs0.take(pn as int) =~= projs0);
    }
    *projectiles = kept_projs;
    events
}

} // verus!
