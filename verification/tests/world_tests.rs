use survivors_core::entities::{Enemy, EnemySlot, InputState, Player, Projectile};
use survivors_core::geometry::Pos;
use survivors_core::movement::{
    count_occupied, enemy_movement_system, enemy_spawn_system, player_movement_system,
    projectile_movement_system,
};
use survivors_core::targeting::{closest_enemy, player_attack_system};
use survivors_core::world::{tick, World};

fn no_input() -> InputState {
    InputState { left: false, right: false, down: false, up: false }
}

fn enemy_at(x: i64, y: i64) -> EnemySlot {
    EnemySlot {
        gen: 0,
        entry: Some(Enemy { pos: Pos { x, y }, half: 25_000, health: 10 }),
    }
}

#[test]
fn held_keys_move_the_player_one_step_per_axis() {
    let mut p = Player::new(Pos { x: 0, y: 0 });
    player_movement_system(
        &mut p,
        InputState { left: true, right: false, down: false, up: true },
    );
    assert_eq!((p.pos.x, p.pos.y), (-1_000, 1_000));
    // Left wins over right, down wins over up.
    player_movement_system(
        &mut p,
        InputState { left: true, right: true, down: true, up: true },
    );
    assert_eq!((p.pos.x, p.pos.y), (-2_000, 0));
}

#[test]
fn enemies_swarm_toward_the_target() {
    let mut enemies = vec![enemy_at(10_000, 0), enemy_at(0, -10_000)];
    enemy_movement_system(&mut enemies, Pos { x: 0, y: 0 });
    assert_eq!(enemies[0].entry.unwrap().pos.x, 9_800);
    assert_eq!(enemies[1].entry.unwrap().pos.y, -9_800);
}

#[test]
fn projectiles_fly_by_their_velocity() {
    let mut projectiles = vec![Projectile::new(Pos { x: 0, y: 0 }, 1_000, -500)];
    projectile_movement_system(&mut projectiles);
    assert_eq!((projectiles[0].pos.x, projectiles[0].pos.y), (1_000, -500));
}

#[test]
fn the_spawner_tops_the_population_up_to_its_target() {
    let mut enemies = vec![enemy_at(0, 0), EnemySlot { gen: 4, entry: None }];
    enemy_spawn_system(&mut enemies);
    assert_eq!(count_occupied(&enemies), 10);
    assert!(enemies.len() <= 10);
    // Every spawned enemy lands strictly inside the spawn range, at full
    // health and with the standard hitbox.
    for slot in enemies.iter().skip(1) {
        let e = slot.entry.expect("the spawner filled every slot");
        assert!(e.pos.x >= 0 && e.pos.x < 1_000_000);
        assert!(e.pos.y >= 0 && e.pos.y < 1_000_000);
        assert_eq!(e.health, 10);
        assert_eq!(e.half, 25_000);
    }
    // The occupied slot is untouched; the cleared slot was refilled under a
    // bumped generation.
    assert_eq!(enemies[0].entry.unwrap().pos.x, 0);
    assert_eq!(enemies[1].gen, 5);
    assert!(enemies[1].entry.is_some());
    // A full population stays as it is.
    let before: Vec<u64> = enemies.iter().map(|s| s.gen).collect();
    enemy_spawn_system(&mut enemies);
    let after: Vec<u64> = enemies.iter().map(|s| s.gen).collect();
    assert_eq!(before, after);
    assert_eq!(count_occupied(&enemies), 10);
}

#[test]
fn the_weapon_aims_at_the_nearest_enemy() {
    let mut p = Player::new(Pos { x: 0, y: 0 });
    let enemies = vec![enemy_at(50_000, 0), enemy_at(10_000, 0)];
    let mut projectiles: Vec<Projectile> = Vec::new();
    // The interval is 1000 ms: the first 400 ms tick holds fire.
    player_attack_system(&mut p, &enemies, &mut projectiles, 400);
    assert!(projectiles.is_empty());
    player_attack_system(&mut p, &enemies, &mut projectiles, 600);
    assert_eq!(projectiles.len(), 1);
    assert_eq!((projectiles[0].vel_x, projectiles[0].vel_y), (1_000, 0));
    assert_eq!(projectiles[0].pos, p.pos);
}

#[test]
fn targeting_ties_go_to_the_first_enemy() {
    let enemies = vec![enemy_at(0, 5_000), enemy_at(5_000, 0)];
    assert_eq!(closest_enemy(&enemies, Pos { x: 0, y: 0 }), Some(0));
    let empty: Vec<EnemySlot> = Vec::new();
    assert_eq!(closest_enemy(&empty, Pos { x: 0, y: 0 }), None);
}

#[test]
fn the_weapon_holds_fire_at_the_projectile_cap() {
    let mut p = Player::new(Pos { x: 0, y: 0 });
    let enemies = vec![enemy_at(10_000, 0)];
    let mut projectiles: Vec<Projectile> = Vec::new();
    for _ in 0..1_024 {
        projectiles.push(Projectile::new(Pos { x: 0, y: 0 }, 1_000, 0));
    }
    player_attack_system(&mut p, &enemies, &mut projectiles, 1_000);
    assert_eq!(projectiles.len(), 1_024);
    // The cooldown still advanced, so the next crossing fires again once
    // room is back.
    projectiles.pop();
    player_attack_system(&mut p, &enemies, &mut projectiles, 1_000);
    assert_eq!(projectiles.len(), 1_024);
}

#[test]
fn with_no_enemy_the_weapon_fires_a_fallback_shot() {
    let mut p = Player::new(Pos { x: 0, y: 0 });
    let enemies: Vec<EnemySlot> = Vec::new();
    let mut projectiles: Vec<Projectile> = Vec::new();
    player_attack_system(&mut p, &enemies, &mut projectiles, 1_000);
    assert_eq!(projectiles.len(), 1);
    let pr = &projectiles[0];
    // The fallback draws from the unit square: both components point up-right
    // and the Manhattan magnitude never exceeds the projectile speed.
    assert!(pr.vel_x >= 0 && pr.vel_y >= 0);
    assert!(pr.vel_x + pr.vel_y <= 1_000);
    assert!((pr.vel_x, pr.vel_y) != (0, 0));
}

#[test]
fn a_tick_reports_and_keeps_the_world_well_formed() {
    let mut w = World::new();
    for _ in 0..5 {
        let rep = tick(&mut w, no_input(), 16).expect("a tick always reports");
        assert_eq!(rep.player_dead, w.player.health <= 0);
        assert_eq!(count_occupied(&w.enemies), 10);
        assert!(w.enemies.len() <= 10);
    }
    assert!(w.player.health <= 100);
}

#[test]
fn an_overlapping_enemy_drains_the_player_each_tick() {
    // The player sits outside the spawn range with one enemy on top of it:
    // every tick that enemy's touch deals its five damage.
    let mut w = World::new();
    w.player = Player::new(Pos { x: -200_000, y: 0 });
    w.enemies = vec![enemy_at(-210_000, 0)];
    for expected in [95i64, 90, 85] {
        let rep = tick(&mut w, no_input(), 16).expect("a tick always reports");
        assert!(!rep.player_dead);
        assert_eq!(w.player.health, expected);
    }
}
