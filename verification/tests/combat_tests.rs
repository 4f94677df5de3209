use survivors_core::combat::enemy_damage_system;
use survivors_core::entities::{Enemy, EnemySlot, Player};
use survivors_core::events::{EnemyId, EntityId, HitEvent};
use survivors_core::geometry::Pos;

fn enemy_at(x: i64, y: i64, health: i64) -> EnemySlot {
    EnemySlot {
        gen: 0,
        entry: Some(Enemy { pos: Pos { x, y }, half: 25_000, health }),
    }
}

fn hit(index: usize, damage: u32) -> HitEvent {
    HitEvent { target: EntityId::Enemy(EnemyId { index, gen: 0 }), damage }
}

#[test]
fn two_same_tick_hits_accumulate_and_kill_once() {
    // Health 10 takes 5 and 7 in one tick: final health -2, one kill event.
    let mut player = Player::new(Pos { x: 0, y: 0 });
    let mut enemies = vec![enemy_at(100, 50, 10)];
    let events = vec![hit(0, 5), hit(0, 7)];
    let kills = enemy_damage_system(&mut player, &mut enemies, &events);
    assert_eq!(kills.len(), 1);
    assert_eq!(kills[0].target, EnemyId { index: 0, gen: 0 });
    let e = enemies[0].entry.expect("the dead enemy stays until the loot stage");
    assert_eq!(e.health, -2);
}

#[test]
fn damage_order_does_not_change_the_outcome() {
    let batches = [vec![hit(0, 5), hit(0, 7)], vec![hit(0, 7), hit(0, 5)]];
    let mut finals = Vec::new();
    for events in batches {
        let mut player = Player::new(Pos { x: 0, y: 0 });
        let mut enemies = vec![enemy_at(0, 0, 10)];
        let kills = enemy_damage_system(&mut player, &mut enemies, &events);
        finals.push((enemies[0].entry.unwrap().health, kills.len()));
    }
    assert_eq!(finals[0], finals[1]);
    assert_eq!(finals[0], (-2, 1));
}

#[test]
fn surviving_damage_emits_no_kill() {
    let mut player = Player::new(Pos { x: 0, y: 0 });
    let mut enemies = vec![enemy_at(0, 0, 10)];
    let events = vec![hit(0, 5)];
    let kills = enemy_damage_system(&mut player, &mut enemies, &events);
    assert_eq!(kills.len(), 0);
    assert_eq!(enemies[0].entry.unwrap().health, 5);
}

#[test]
fn death_fires_exactly_at_zero() {
    let mut player = Player::new(Pos { x: 0, y: 0 });
    let mut enemies = vec![enemy_at(0, 0, 10)];
    let events = vec![hit(0, 10)];
    let kills = enemy_damage_system(&mut player, &mut enemies, &events);
    assert_eq!(kills.len(), 1);
    assert_eq!(enemies[0].entry.unwrap().health, 0);
}

#[test]
fn stale_damage_events_are_silent_noops() {
    let mut player = Player::new(Pos { x: 0, y: 0 });
    let mut enemies = vec![enemy_at(0, 0, 10), EnemySlot { gen: 3, entry: None }];
    let events = vec![
        // Out-of-range index.
        hit(9, 5),
        // Cleared slot.
        HitEvent { target: EntityId::Enemy(EnemyId { index: 1, gen: 3 }), damage: 5 },
        // Outdated generation.
        HitEvent { target: EntityId::Enemy(EnemyId { index: 0, gen: 2 }), damage: 5 },
    ];
    let kills = enemy_damage_system(&mut player, &mut enemies, &events);
    assert_eq!(kills.len(), 0);
    assert_eq!(enemies[0].entry.unwrap().health, 10);
    assert_eq!(player.health, 100);
}

#[test]
fn player_damage_accumulates_without_removal() {
    let mut player = Player::new(Pos { x: 0, y: 0 });
    let mut enemies: Vec<EnemySlot> = Vec::new();
    let events = vec![
        HitEvent { target: EntityId::Player, damage: 60 },
        HitEvent { target: EntityId::Player, damage: 60 },
    ];
    let kills = enemy_damage_system(&mut player, &mut enemies, &events);
    // The player dies (health crosses zero) but is never removed and never
    // appears among the kill events.
    assert_eq!(kills.len(), 0);
    assert_eq!(player.health, -20);
}
