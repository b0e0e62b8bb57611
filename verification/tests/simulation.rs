use arena_combat::actor::Enemy;
use arena_combat::sim::{Simulation, TickInput, ENEMY_SPAWN_INTERVAL_MS, MAXIMUM_ENEMY_COUNT};
use arena_combat::vec2::Vec2;

fn idle_input() -> TickInput {
    TickInput {
        up: false,
        down: false,
        left: false,
        right: false,
        fire: false,
        reload: false,
        select_slot: None,
        cursor: Vec2::new(400_000, 0),
    }
}

fn enemy_at(x: i64, y: i64) -> Enemy {
    Enemy { position: Vec2::new(x, y), health: 25, speed: 90_000 }
}

#[test]
fn spawner_fills_up_to_the_cap_and_no_further() {
    let mut sim = Simulation::new();
    // One scheduled spawn per full interval.
    for expected in 1..=MAXIMUM_ENEMY_COUNT - 1 {
        sim.enemy_spawner(ENEMY_SPAWN_INTERVAL_MS);
        assert_eq!(sim.enemy_count(), expected);
    }
    // At cap - 1, one scheduled tick produces exactly the cap.
    sim.enemy_spawner(ENEMY_SPAWN_INTERVAL_MS);
    assert_eq!(sim.enemy_count(), MAXIMUM_ENEMY_COUNT);
    // At the cap, a scheduled tick produces no new enemy, and skipped
    // spawns are not queued.
    sim.enemy_spawner(ENEMY_SPAWN_INTERVAL_MS);
    assert_eq!(sim.enemy_count(), MAXIMUM_ENEMY_COUNT);
    sim.enemy_spawner(5 * ENEMY_SPAWN_INTERVAL_MS);
    assert_eq!(sim.enemy_count(), MAXIMUM_ENEMY_COUNT);
}

#[test]
fn spawner_accumulates_sub_interval_deltas() {
    let mut sim = Simulation::new();
    sim.enemy_spawner(400);
    assert_eq!(sim.enemy_count(), 0);
    sim.enemy_spawner(400);
    assert_eq!(sim.enemy_count(), 0);
    sim.enemy_spawner(400);
    // 1200 ms accumulated: exactly one interval has elapsed.
    assert_eq!(sim.enemy_count(), 1);
    assert_eq!(sim.spawn_timer_ms, 200);
}

#[test]
fn spawned_enemy_sits_at_the_spawn_distance() {
    let mut sim = Simulation::new();
    sim.enemy_spawner(ENEMY_SPAWN_INTERVAL_MS);
    let e = &sim.enemies[0];
    assert_eq!(e.health, 25);
    assert_eq!(e.speed, 90_000);
    // The offset from the player (at the origin) is one polar coordinate of
    // radius 750 units: neither component exceeds the radius, and they
    // cannot both be small.
    assert!(e.position.x.abs() <= 750_000);
    assert!(e.position.y.abs() <= 750_000);
    let r2 = e.position.x * e.position.x + e.position.y * e.position.y;
    assert!(r2 >= 500_000i64 * 500_000);
}

#[test]
fn assault_rifle_kills_in_two_shots() {
    // An enemy with 25 health takes two 15-damage hits: the first leaves 10,
    // the second (15 >= 10) removes it.
    let mut sim = Simulation::new();
    sim.enemies.push(enemy_at(100_000, 0));
    sim.select_weapon(Some(3));
    let cursor = Vec2::new(400_000, 0);

    sim.tick_weapon_timers(200);
    sim.shoot_weapon(true, cursor);
    assert_eq!(sim.enemy_count(), 1);
    assert_eq!(sim.enemies[0].health, 10);

    sim.tick_weapon_timers(100);
    sim.shoot_weapon(true, cursor);
    assert_eq!(sim.enemy_count(), 0);
}

#[test]
fn cone_hits_all_enemies_inside_and_spares_the_rest() {
    let mut sim = Simulation::new();
    sim.enemies.push(enemy_at(100_000, 0));
    sim.enemies.push(enemy_at(200_000, 20_000));
    // Behind the player: outside the cone.
    sim.enemies.push(enemy_at(-100_000, 0));
    sim.tick_weapon_timers(300);
    sim.shoot_weapon(true, Vec2::new(400_000, 0));
    // Pistols: both enemies in the cone lose 10, the one behind is spared.
    assert_eq!(sim.enemy_count(), 3);
    assert_eq!(sim.enemies[0].health, 15);
    assert_eq!(sim.enemies[1].health, 15);
    assert_eq!(sim.enemies[2].health, 25);
}

#[test]
fn firing_at_the_player_position_hits_nothing() {
    // A cursor on the player collapses the cone to a degenerate triangle,
    // which is treated as "no enemy hit" - but the round is still spent.
    let mut sim = Simulation::new();
    sim.enemies.push(enemy_at(10_000, 0));
    sim.tick_weapon_timers(300);
    let player = sim.player_position();
    sim.shoot_weapon(true, player);
    assert_eq!(sim.enemy_count(), 1);
    assert_eq!(sim.enemies[0].health, 25);
    assert_eq!(sim.selected_weapon_ammo(), Some((29, 30)));
}

#[test]
fn firing_with_nothing_selected_is_a_no_op() {
    let mut sim = Simulation::new();
    sim.selected_weapon = None;
    sim.enemies.push(enemy_at(100_000, 0));
    sim.tick_weapon_timers(300);
    sim.shoot_weapon(true, Vec2::new(400_000, 0));
    assert_eq!(sim.enemy_count(), 1);
    assert_eq!(sim.enemies[0].health, 25);
    assert_eq!(sim.weapons[0].current_ammo, 30);
    assert_eq!(sim.selected_weapon_name(), None);
    assert_eq!(sim.selected_weapon_ammo(), None);
}

#[test]
fn selecting_a_nonexistent_slot_is_a_no_op() {
    let mut sim = Simulation::new();
    sim.select_weapon(Some(9));
    assert_eq!(sim.selected_weapon, Some(0));
    sim.select_weapon(Some(0));
    assert_eq!(sim.selected_weapon, Some(0));
    sim.select_weapon(Some(2));
    assert_eq!(sim.selected_weapon, Some(1));
    assert_eq!(sim.selected_weapon_name(), Some("Shotgun"));
}

#[test]
fn contact_damage_is_one_point_per_invincibility_window() {
    // The player overlaps an enemy for three consecutive ticks but was hit
    // on the first: health drops by exactly one, and invincibility holds
    // through the third tick.
    let mut sim = Simulation::new();
    sim.enemies.push(enemy_at(10_000, 0));
    assert_eq!(sim.player_health(), 5);

    sim.enemy_damage(100);
    assert_eq!(sim.player_health(), 4);
    assert!(sim.player.invincible);

    sim.enemy_damage(100);
    sim.enemy_damage(100);
    assert_eq!(sim.player_health(), 4);
    assert!(sim.player.invincible);

    // Once the full window has elapsed, contact hurts again.
    sim.enemy_damage(1000);
    assert!(!sim.player.invincible);
    sim.enemy_damage(100);
    assert_eq!(sim.player_health(), 3);
}

#[test]
fn overlapping_several_enemies_costs_one_point() {
    let mut sim = Simulation::new();
    sim.enemies.push(enemy_at(10_000, 0));
    sim.enemies.push(enemy_at(-10_000, 5_000));
    sim.enemies.push(enemy_at(0, 20_000));
    sim.enemy_damage(100);
    assert_eq!(sim.player_health(), 4);
}

#[test]
fn player_movement_is_frame_rate_independent() {
    // Two 8 ms frames move the player as far as one 16 ms frame.
    let mut a = Simulation::new();
    a.player_movement(false, false, false, true, 16);
    let mut b = Simulation::new();
    b.player_movement(false, false, false, true, 8);
    b.player_movement(false, false, false, true, 8);
    assert_eq!(a.player_position(), b.player_position());
    // Speed 2000 milliunits/s for 16 ms: exactly 32 milliunits.
    assert_eq!(a.player_position(), Vec2::new(32, 0));
}

#[test]
fn opposite_directions_cancel() {
    let mut sim = Simulation::new();
    sim.player_movement(true, true, true, true, 1000);
    assert_eq!(sim.player_position(), Vec2::new(0, 0));
}

#[test]
fn enemies_pursue_the_player() {
    let mut sim = Simulation::new();
    sim.enemies.push(enemy_at(500_000, 0));
    // 90 units/s for one second: 90 units straight toward the player.
    sim.enemy_movement(1000);
    assert_eq!(sim.enemies[0].position, Vec2::new(410_000, 0));
}

#[test]
fn one_full_tick_in_order() {
    let mut sim = Simulation::new();
    sim.enemies.push(enemy_at(100_000, 0));
    let mut input = idle_input();
    input.fire = true;
    input.right = true;
    sim.tick_weapon_timers(300);

    sim.tick(&input, 16);
    // The shot resolved against the enemy before anyone moved...
    assert_eq!(sim.enemies[0].health, 15);
    // ...then the player stepped right at speed 2000 for 16 ms...
    assert_eq!(sim.player_position(), Vec2::new(32, 0));
    // ...and no spawn interval elapsed.
    assert_eq!(sim.enemy_count(), 1);
    assert_eq!(sim.spawn_timer_ms, 16);
    assert_eq!(sim.selected_weapon_ammo(), Some((29, 30)));
}

#[test]
fn tick_runs_the_spawner_on_interval_boundaries() {
    let mut sim = Simulation::new();
    let input = idle_input();
    sim.tick(&input, 600);
    assert_eq!(sim.enemy_count(), 0);
    sim.tick(&input, 600);
    assert_eq!(sim.enemy_count(), 1);
    assert_eq!(sim.spawn_timer_ms, 200);
}

#[test]
fn manual_reload_through_the_simulation() {
    let mut sim = Simulation::new();
    sim.tick_weapon_timers(300);
    sim.shoot_weapon(true, Vec2::new(400_000, 0));
    assert_eq!(sim.selected_weapon_ammo(), Some((29, 30)));
    sim.reload_weapon(true);
    assert!(sim.weapons[0].reloading);
    sim.tick_weapon_timers(2000);
    assert_eq!(sim.selected_weapon_ammo(), Some((30, 30)));
}

#[test]
fn switching_weapons_keeps_each_timer() {
    // Selecting another weapon resets no timers: they are per-weapon.
    let mut sim = Simulation::new();
    sim.tick_weapon_timers(100);
    assert_eq!(sim.weapons[0].fire_cooldown_ms, 200);
    sim.select_weapon(Some(2));
    assert_eq!(sim.weapons[0].fire_cooldown_ms, 200);
    assert_eq!(sim.weapons[1].fire_cooldown_ms, 900);
}
