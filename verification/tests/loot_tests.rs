use survivors_core::entities::{Enemy, EnemySlot, GemValue, Loot, LootType};
use survivors_core::events::{EnemyId, KillEvent, SimError};
use survivors_core::geometry::Pos;
use survivors_core::loot::{
    animation_system, loot_drop_system, loot_for_rolls, roll_drop, CAT_COIN, CAT_GEM, CAT_NOTHING,
    TIER_HIGH, TIER_LOW, TIER_MEDIUM,
};

fn corpse_at(x: i64, y: i64) -> EnemySlot {
    EnemySlot {
        gen: 0,
        entry: Some(Enemy { pos: Pos { x, y }, half: 25_000, health: -2 }),
    }
}

#[test]
fn gem_low_roll_spawns_one_gem_at_the_death_position() {
    // Category "gem", tier "low", death position (100, 50).
    let l = loot_for_rolls(CAT_GEM, TIER_LOW, Pos { x: 100, y: 50 })
        .expect("a gem roll spawns a loot entity");
    assert_eq!(l.kind, LootType::Gem(GemValue::Low));
    assert_eq!((l.pos.x, l.pos.y), (100, 50));
}

#[test]
fn every_roll_outcome_maps_to_its_loot() {
    let p = Pos { x: 0, y: 0 };
    assert!(loot_for_rolls(CAT_NOTHING, TIER_LOW, p).is_none());
    assert_eq!(loot_for_rolls(CAT_COIN, TIER_LOW, p).unwrap().kind, LootType::Coin);
    assert_eq!(
        loot_for_rolls(CAT_GEM, TIER_MEDIUM, p).unwrap().kind,
        LootType::Gem(GemValue::Medium)
    );
    assert_eq!(
        loot_for_rolls(CAT_GEM, TIER_HIGH, p).unwrap().kind,
        LootType::Gem(GemValue::High)
    );
}

#[test]
fn roll_drop_always_succeeds_and_places_at_the_given_position() {
    for _ in 0..200 {
        let drop = roll_drop(Pos { x: 42, y: -7 }).expect("both tables hold their entries");
        if let Some(l) = drop {
            assert_eq!((l.pos.x, l.pos.y), (42, -7));
            assert!(matches!(l.kind, LootType::Coin | LootType::Gem(_)));
        }
    }
}

#[test]
fn drop_categories_are_all_reachable() {
    // With weights 10 : 10 : 5 a few hundred rolls hit every category.
    let mut nothing = 0u32;
    let mut coins = 0u32;
    let mut gems = 0u32;
    for _ in 0..600 {
        match roll_drop(Pos { x: 0, y: 0 }).unwrap() {
            None => nothing += 1,
            Some(l) => match l.kind {
                LootType::Coin => coins += 1,
                LootType::Gem(_) => gems += 1,
            },
        }
    }
    assert!(nothing > 0 && coins > 0 && gems > 0);
}

#[test]
fn a_kill_clears_the_slot_and_drops_at_its_position() {
    let mut enemies = vec![corpse_at(100_000, 50_000)];
    let mut loots: Vec<Loot> = Vec::new();
    let kills = vec![KillEvent { target: EnemyId { index: 0, gen: 0 } }];
    let spawned = loot_drop_system(&mut enemies, &mut loots, &kills)
        .expect("the kill resolves against the corpse");
    assert!(enemies[0].entry.is_none());
    assert_eq!(spawned, loots.len());
    assert!(spawned <= 1);
    for l in &loots {
        assert_eq!((l.pos.x, l.pos.y), (100_000, 50_000));
    }
}

#[test]
fn a_death_event_without_a_corpse_is_fatal() {
    // The slot was already cleared: the position cannot be read, so the
    // pipeline order was violated and the engine fails loudly.
    let mut enemies = vec![EnemySlot { gen: 0, entry: None }];
    let mut loots: Vec<Loot> = Vec::new();
    let kills = vec![KillEvent { target: EnemyId { index: 0, gen: 0 } }];
    let r = loot_drop_system(&mut enemies, &mut loots, &kills);
    assert_eq!(r, Err(SimError::StaleDeathEvent));
}

#[test]
fn a_death_event_with_an_outdated_generation_is_fatal() {
    let mut enemies = vec![corpse_at(0, 0)];
    let mut loots: Vec<Loot> = Vec::new();
    let kills = vec![KillEvent { target: EnemyId { index: 0, gen: 1 } }];
    assert_eq!(
        loot_drop_system(&mut enemies, &mut loots, &kills),
        Err(SimError::StaleDeathEvent)
    );
}

#[test]
fn loot_animations_advance_together() {
    let mut loots = vec![
        Loot::new(LootType::Coin, Pos { x: 0, y: 0 }),
        Loot::new(LootType::Gem(GemValue::Low), Pos { x: 10, y: 10 }),
    ];
    animation_system(&mut loots, 100);
    assert_eq!(loots[0].anim.frame, 1);
    assert_eq!(loots[1].anim.frame, 1);
    animation_system(&mut loots, 50);
    assert_eq!(loots[0].anim.frame, 1);
}
