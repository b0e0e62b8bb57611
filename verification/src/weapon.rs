//! Per-weapon fire-control state machine: ammunition, fire-delay cooldown
//! and reload cycle, with every transition specified exactly.
//!
//! A weapon is `Idle` when its cooldown has elapsed and it is not reloading,
//! `Cooldown` while the fire-delay countdown runs, and `Reloading` while the
//! reload countdown runs. Durations are in milliseconds.

use vstd::prelude::*;

verus! {

/// The five weapons of the fixed starting arsenal.
#[derive(Clone, Copy, PartialEq, Eq, Structural, Debug)]
pub enum WeaponKind {
    Pistols,
    Shotgun,
    AssaultRifle,
    RocketLauncher,
    Laser,
}

impl WeaponKind {
    /// The display name of the weapon.
    pub open spec fn spec_name(self) -> Seq<char> {
        match self {
            WeaponKind::Pistols => "Pistols"@,
            WeaponKind::Shotgun => "Shotgun"@,
            WeaponKind::AssaultRifle => "AssaultRifle"@,
            WeaponKind::RocketLauncher => "RocketLauncher"@,
            WeaponKind::Laser => "Laser"@,
        }
    }

    /// The display name of the weapon.
    pub fn name(self) -> (r: &'static str)
        ensures
            r@ == self.spec_name(),
    {
        match self {
            WeaponKind::Pistols => "Pistols",
            WeaponKind::Shotgun => "Shotgun",
            WeaponKind::AssaultRifle => "AssaultRifle",
            WeaponKind::RocketLauncher => "RocketLauncher",
            WeaponKind::Laser => "Laser",
        }
    }
}

/// One weapon with its ammunition and timer state.
#[derive(Clone, Copy, PartialEq, Eq, Structural, Debug)]
pub struct Weapon {
    pub kind: WeaponKind,
    /// Health points removed from each enemy hit by one shot.
    pub damage: i32,
    pub maximum_ammo: u32,
    pub current_ammo: u32,
    /// Configured minimum time between shots, in milliseconds.
    pub fire_delay_ms: u32,
    /// Time remaining until the next shot is permitted.
    pub fire_cooldown_ms: u32,
    /// Configured duration of a full reload, in milliseconds.
    pub reload_time_ms: u32,
    /// Time remaining on the running reload; meaningful while `reloading`.
    pub reload_remaining_ms: u32,
    pub reloading: bool,
}

impl Weapon {
    /// The weapon's internal invariant: ammunition within capacity, timers
    /// within their configured spans, the reload countdown running exactly
    /// while `reloading`, and ammunition available whenever not reloading
    /// (an empty weapon is always reloading, by the auto-reload rule).
    pub open spec fn wf(self) -> bool {
        &&& self.current_ammo <= self.maximum_ammo
        &&& self.maximum_ammo >= 1
        &&& self.damage >= 1
        &&& self.fire_cooldown_ms <= self.fire_delay_ms
        &&& self.reload_remaining_ms <= self.reload_time_ms
        &&& self.reload_time_ms >= 1
        &&& (self.reloading ==> self.reload_remaining_ms >= 1)
        &&& (!self.reloading ==> self.current_ammo >= 1)
    }
}

/// `a` minus `dt`, stopping at zero.
pub open spec fn countdown(a: u32, dt: u32) -> u32 {
    if a <= dt {
        0
    } else {
        (a - dt) as u32
    }
}

/// One timer step of `dt` milliseconds: the fire-delay cooldown runs down,
/// and a running reload runs down too, restoring full ammunition the moment
/// it expires.
pub open spec fn spec_weapon_tick(w: Weapon, dt: u32) -> Weapon {
    let cooled = Weapon { fire_cooldown_ms: countdown(w.fire_cooldown_ms, dt), ..w };
    if w.reloading {
        if w.reload_remaining_ms <= dt {
            Weapon {
                current_ammo: w.maximum_ammo,
                reloading: false,
                reload_remaining_ms: 0,
                ..cooled
            }
        } else {
            Weapon { reload_remaining_ms: (w.reload_remaining_ms - dt) as u32, ..cooled }
        }
    } else {
        cooled
    }
}

/// One fire attempt with the fire delay already satisfied: a reloading
/// or empty weapon ignores it; otherwise one round is spent, the cooldown
/// restarts, and spending the last round starts the automatic reload.
pub open spec fn spec_fire(w: Weapon) -> Weapon {
    if w.reloading || w.current_ammo == 0 {
        w
    } else if w.current_ammo == 1 {
        Weapon {
            current_ammo: 0,
            fire_cooldown_ms: w.fire_delay_ms,
            reloading: true,
            reload_remaining_ms: w.reload_time_ms,
            ..w
        }
    } else {
        Weapon {
            current_ammo: (w.current_ammo - 1) as u32,
            fire_cooldown_ms: w.fire_delay_ms,
            ..w
        }
    }
}

/// A manual reload request: starts the reload countdown unless one is
/// already running.
pub open spec fn spec_start_reload(w: Weapon) -> Weapon {
    if w.reloading {
        w
    } else {
        Weapon { reloading: true, reload_remaining_ms: w.reload_time_ms, ..w }
    }
}

impl Weapon {
    /// Advance both countdowns by `dt_ms`; a reload that expires restores
    /// full ammunition and clears the reloading flag.
    pub fn tick(&mut self, dt_ms: u32)
        requires
            old(self).wf(),
        ensures
            *final(self) == spec_weapon_tick(*old(self), dt_ms),
            final(self).wf(),
    {
        if self.fire_cooldown_ms <= dt_ms {
            self.fire_cooldown_ms = 0;
        } else {
            self.fire_cooldown_ms = self.fire_cooldown_ms - dt_ms;
        }
        if self.reloading {
            if self.reload_remaining_ms <= dt_ms {
                self.reload_remaining_ms = 0;
                self.current_ammo = self.maximum_ammo;
                self.reloading = false;
            } else {
                self.reload_remaining_ms = self.reload_remaining_ms - dt_ms;
            }
        }
    }

    /// A fire attempt. Returns whether a shot actually left the weapon: only
    /// when the cooldown has elapsed, no reload is running, and a round is
    /// chambered. An ignored attempt changes nothing at all.
    pub fn fire(&mut self) -> (fired: bool)
        requires
            old(self).wf(),
        ensures
            fired == (old(self).fire_cooldown_ms == 0 && !old(self).reloading && old(
                self,
            ).current_ammo > 0),
            *final(self) == if old(self).fire_cooldown_ms == 0 {
                spec_fire(*old(self))
            } else {
                *old(self)
            },
            final(self).wf(),
    {
        if self.fire_cooldown_ms == 0 && !self.reloading && self.current_ammo > 0 {
            self.current_ammo = self.current_ammo - 1;
            self.fire_cooldown_ms = self.fire_delay_ms;
            if self.current_ammo == 0 {
                self.reloading = true;
                self.reload_remaining_ms = self.reload_time_ms;
            }
            true
        } else {
            false
        }
    }

    /// A manual reload request: starts the reload countdown unless one is
    /// already running.
    pub fn start_reload(&mut self)
        requires
            old(self).wf(),
        ensures
            *final(self) == spec_start_reload(*old(self)),
            final(self).wf(),
    {
        if !self.reloading {
            self.reloading = true;
            self.reload_remaining_ms = self.reload_time_ms;
        }
    }
}

/// The ammunition count always lies between zero and the capacity.
pub proof fn lemma_ammo_within_capacity(w: Weapon)
    requires
        w.wf(),
    ensures
        0 <= w.current_ammo <= w.maximum_ammo,
{
}

/// A reloading weapon ignores fire input entirely: the attempt changes
/// nothing, in particular not the ammunition count.
pub proof fn lemma_fire_while_reloading_is_noop(w: Weapon)
    requires
        w.reloading,
    ensures
        spec_fire(w) == w,
{
}

/// `n` fire attempts in immediate succession, each with the fire delay
/// already satisfied and with no time passing in between.
pub open spec fn spec_fire_n(w: Weapon, n: nat) -> Weapon
    decreases n,
{
    if n == 0 {
        w
    } else {
        spec_fire(spec_fire_n(w, (n - 1) as nat))
    }
}

/// Firing any number of times in immediate succession without reloading
/// never drives the ammunition count below zero (it stops exactly at zero),
/// and sets the reloading flag exactly when the count reaches zero.
pub proof fn lemma_repeated_fire(w: Weapon, n: nat)
    requires
        w.wf(),
        !w.reloading,
    ensures
        spec_fire_n(w, n).current_ammo == if n < w.current_ammo {
            w.current_ammo - n
        } else {
            0
        },
        spec_fire_n(w, n).reloading == (n >= w.current_ammo),
        spec_fire_n(w, n).wf(),
    decreases n,
{
    if n > 0 {
        lemma_repeated_fire(w, (n - 1) as nat);
    }
}

/// The catalog of the five starting weapons, in selection order: name,
/// damage, capacity, fire delay and reload time, each weapon full, idle
/// only after its initial cooldown, and not reloading.
pub open spec fn spec_weapon_catalog() -> Seq<Weapon> {
    seq![
        spec_fresh_weapon(WeaponKind::Pistols, 10, 30, 300, 2000),
        spec_fresh_weapon(WeaponKind::Shotgun, 30, 7, 1000, 750),
        spec_fresh_weapon(WeaponKind::AssaultRifle, 15, 30, 100, 1500),
        spec_fresh_weapon(WeaponKind::RocketLauncher, 50, 1, 1500, 2500),
        spec_fresh_weapon(WeaponKind::Laser, 10, 30, 100, 1500),
    ]
}

/// A factory-fresh weapon: full magazine, cooldown wound up once, no reload
/// running.
pub open spec fn spec_fresh_weapon(
    kind: WeaponKind,
    damage: i32,
    ammo: u32,
    fire_delay_ms: u32,
    reload_time_ms: u32,
) -> Weapon {
    Weapon {
        kind,
        damage,
        maximum_ammo: ammo,
        current_ammo: ammo,
        fire_delay_ms,
        fire_cooldown_ms: fire_delay_ms,
        reload_time_ms,
        reload_remaining_ms: 0,
        reloading: false,
    }
}

/// Build one weapon in its starting state.
fn fresh_weapon(
    kind: WeaponKind,
    damage: i32,
    ammo: u32,
    fire_delay_ms: u32,
    reload_time_ms: u32,
) -> (r: Weapon)
    ensures
        r == spec_fresh_weapon(kind, damage, ammo, fire_delay_ms, reload_time_ms),
{
    Weapon {
        kind,
        damage,
        maximum_ammo: ammo,
        current_ammo: ammo,
        fire_delay_ms,
        fire_cooldown_ms: fire_delay_ms,
        reload_time_ms,
        reload_remaining_ms: 0,
        reloading: false,
    }
}

/// The stable, ordered arsenal created once at simulation start; slot `i`
/// answers hotkey `i + 1`.
pub fn spawn_weapons() -> (r: Vec<Weapon>)
    ensures
        r@ == spec_weapon_catalog(),
        r@.len() == 5,
        forall|i: int| 0 <= i < r@.len() ==> #[trigger] r@[i].wf(),
{
    let mut weapons: Vec<Weapon> = Vec::new();
    weapons.push(fresh_weapon(WeaponKind::Pistols, 10, 30, 300, 2000));
    weapons.push(fresh_weapon(WeaponKind::Shotgun, 30, 7, 1000, 750));
    weapons.push(fresh_weapon(WeaponKind::AssaultRifle, 15, 30, 100, 1500));
    weapons.push(fresh_weapon(WeaponKind::RocketLauncher, 50, 1, 1500, 2500));
    weapons.push(fresh_weapon(WeaponKind::Laser, 10, 30, 100, 1500));
    proof {
        assert(weapons@ =~= spec_weapon_catalog());
    }
    weapons
}

} // verus!
