use arena_combat::weapon::{spawn_weapons, Weapon, WeaponKind};

fn pistols() -> Weapon {
    spawn_weapons()[0]
}

#[test]
fn catalog_holds_the_five_presets() {
    let weapons = spawn_weapons();
    assert_eq!(weapons.len(), 5);

    let expected: [(&str, i32, u32, u32, u32); 5] = [
        ("Pistols", 10, 30, 300, 2000),
        ("Shotgun", 30, 7, 1000, 750),
        ("AssaultRifle", 15, 30, 100, 1500),
        ("RocketLauncher", 50, 1, 1500, 2500),
        ("Laser", 10, 30, 100, 1500),
    ];
    for (w, (name, damage, ammo, delay, reload)) in weapons.iter().zip(expected.iter()) {
        assert_eq!(w.kind.name(), *name);
        assert_eq!(w.damage, *damage);
        assert_eq!(w.maximum_ammo, *ammo);
        assert_eq!(w.current_ammo, *ammo);
        assert_eq!(w.fire_delay_ms, *delay);
        assert_eq!(w.reload_time_ms, *reload);
        assert!(!w.reloading);
    }
    assert_eq!(weapons[2].kind, WeaponKind::AssaultRifle);
}

#[test]
fn ammo_stays_within_capacity() {
    let mut w = pistols();
    for _ in 0..100 {
        w.tick(300);
        w.fire();
        assert!(w.current_ammo <= w.maximum_ammo);
    }
}

#[test]
fn repeated_fire_stops_at_zero_and_starts_reload() {
    let mut w = pistols();
    for i in 0..30u32 {
        w.tick(300);
        let fired = w.fire();
        assert!(fired);
        assert_eq!(w.current_ammo, 30 - (i + 1));
        // The reloading flag rises exactly when the count reaches zero.
        assert_eq!(w.reloading, w.current_ammo == 0);
    }
    assert_eq!(w.current_ammo, 0);
    assert!(w.reloading);

    // Further attempts are ignored; the count never goes below zero.
    w.tick(100);
    assert!(!w.fire());
    assert_eq!(w.current_ammo, 0);
}

#[test]
fn fire_while_reloading_changes_nothing() {
    let mut w = pistols();
    w.tick(300);
    w.start_reload();
    assert!(w.reloading);
    let before = w;
    assert!(!w.fire());
    assert_eq!(w, before);
}

#[test]
fn fire_during_cooldown_is_ignored() {
    let mut w = pistols();
    w.tick(300);
    assert!(w.fire());
    // The 300 ms fire delay has just been rewound; 100 ms is not enough.
    w.tick(100);
    let before = w;
    assert!(!w.fire());
    assert_eq!(w, before);
}

#[test]
fn pistols_full_cycle() {
    // Thirty shots with the delay satisfied each time, then the automatic
    // reload restores the full magazine after exactly two seconds.
    let mut w = pistols();
    for _ in 0..30 {
        w.tick(300);
        assert!(w.fire());
    }
    assert_eq!(w.current_ammo, 0);
    assert!(w.reloading);
    assert_eq!(w.reload_remaining_ms, 2000);

    w.tick(1999);
    assert!(w.reloading);
    assert_eq!(w.current_ammo, 0);

    w.tick(1);
    assert!(!w.reloading);
    assert_eq!(w.current_ammo, 30);
}

#[test]
fn manual_reload_restores_ammo_after_its_time() {
    let mut w = pistols();
    w.tick(300);
    assert!(w.fire());
    assert_eq!(w.current_ammo, 29);
    w.start_reload();
    assert!(w.reloading);
    assert_eq!(w.reload_remaining_ms, 2000);
    w.tick(2000);
    assert!(!w.reloading);
    assert_eq!(w.current_ammo, 30);
}

#[test]
fn timers_persist_per_weapon() {
    // Ticking one weapon leaves another untouched: timers are per-weapon.
    let weapons = spawn_weapons();
    let mut first = weapons[0];
    let second = weapons[1];
    first.tick(300);
    assert_eq!(first.fire_cooldown_ms, 0);
    assert_eq!(second.fire_cooldown_ms, second.fire_delay_ms);
}
