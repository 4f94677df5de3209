use survivors_core::collision::collision_system;
use survivors_core::combat::enemy_damage_system;
use survivors_core::entities::{Enemy, EnemySlot, Loot, LootType, Player, Projectile};
use survivors_core::events::{EnemyId, EntityId};
use survivors_core::geometry::Pos;

fn enemy_at(x: i64, y: i64) -> EnemySlot {
    EnemySlot {
        gen: 0,
        entry: Some(Enemy { pos: Pos { x, y }, half: 25_000, health: 10 }),
    }
}

#[test]
fn a_projectile_overlapping_two_enemies_hits_only_the_first() {
    let player = Player::new(Pos { x: 500_000, y: 500_000 });
    // Both enemies overlap the projectile at the origin; the first in
    // enumeration order takes the hit.
    let enemies = vec![enemy_at(10_000, 0), enemy_at(-10_000, 0)];
    let mut projectiles = vec![Projectile::new(Pos { x: 0, y: 0 }, 1_000, 0)];
    let mut loots: Vec<Loot> = Vec::new();
    let events = collision_system(&player, &enemies, &mut projectiles, &mut loots);
    assert_eq!(events.len(), 1);
    assert_eq!(events[0].target, EntityId::Enemy(EnemyId { index: 0, gen: 0 }));
    // The projectile scored its one hit and despawned.
    assert!(projectiles.is_empty());
    // The second enemy takes no damage this tick.
    let mut p = player;
    let mut world_enemies = enemies;
    enemy_damage_system(&mut p, &mut world_enemies, &events);
    assert_eq!(world_enemies[0].entry.unwrap().health, 5);
    assert_eq!(world_enemies[1].entry.unwrap().health, 10);
}

#[test]
fn each_overlapping_enemy_deals_its_own_touch_damage() {
    // Three enemies overlap the player at once: three events of 5, uncapped
    // by design.
    let player = Player::new(Pos { x: 0, y: 0 });
    let enemies = vec![enemy_at(10_000, 0), enemy_at(0, 10_000), enemy_at(-10_000, 0)];
    let mut projectiles: Vec<Projectile> = Vec::new();
    let mut loots: Vec<Loot> = Vec::new();
    let events = collision_system(&player, &enemies, &mut projectiles, &mut loots);
    assert_eq!(events.len(), 3);
    for e in &events {
        assert_eq!(e.target, EntityId::Player);
        assert_eq!(e.damage, 5);
    }
    let mut p = player;
    let mut es = enemies;
    enemy_damage_system(&mut p, &mut es, &events);
    assert_eq!(p.health, 85);
}

#[test]
fn distant_pairs_emit_nothing() {
    let player = Player::new(Pos { x: 0, y: 0 });
    let enemies = vec![enemy_at(500_000, 0)];
    let mut projectiles = vec![Projectile::new(Pos { x: -500_000, y: 0 }, 1_000, 0)];
    let mut loots: Vec<Loot> = Vec::new();
    let events = collision_system(&player, &enemies, &mut projectiles, &mut loots);
    assert!(events.is_empty());
    assert_eq!(projectiles.len(), 1);
}

#[test]
fn overlapping_loot_is_picked_up_without_damage() {
    let player = Player::new(Pos { x: 0, y: 0 });
    let enemies: Vec<EnemySlot> = Vec::new();
    let mut projectiles: Vec<Projectile> = Vec::new();
    let mut loots = vec![
        Loot::new(LootType::Coin, Pos { x: 1_000, y: 0 }),
        Loot::new(LootType::Coin, Pos { x: 900_000, y: 0 }),
    ];
    let events = collision_system(&player, &enemies, &mut projectiles, &mut loots);
    assert!(events.is_empty());
    // The nearby coin is gone, the distant one stays.
    assert_eq!(loots.len(), 1);
    assert_eq!(loots[0].pos.x, 900_000);
}

#[test]
fn cleared_slots_do_not_collide() {
    let player = Player::new(Pos { x: 0, y: 0 });
    let enemies = vec![EnemySlot { gen: 5, entry: None }];
    let mut projectiles = vec![Projectile::new(Pos { x: 0, y: 0 }, 1_000, 0)];
    let mut loots: Vec<Loot> = Vec::new();
    let events = collision_system(&player, &enemies, &mut projectiles, &mut loots);
    assert!(events.is_empty());
    assert_eq!(projectiles.len(), 1);
}
