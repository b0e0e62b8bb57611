//! The simulation context: the single owner of all shared state (player,
//! enemies, arsenal, selection, spawn accumulator) and the per-tick step
//! functions that advance it in a fixed order.

use vstd::prelude::*;

use crate::actor::{
    Enemy, Player, spawn_enemy, spawn_player, spec_initial_player, ENEMY_HEALTH, ENEMY_SPEED,
    INVINCIBILITY_WINDOW_MS, SPEED_LIMIT, WORLD_LIMIT,
};
use crate::rng::random_angle_mdeg;
use crate::vec2::{
    cos_fp, cos_mdeg, div_trig, in_range, scale_by_trig, sin_fp, sin_mdeg, spec_in_triangle,
    spec_rotated_by, spec_scaled_vector_to, Vec2, COORD_LIMIT, FULL_TURN_MDEG,
};
use crate::weapon::{
    countdown, spawn_weapons, spec_fire, spec_start_reload, spec_weapon_catalog, spec_weapon_tick,
    Weapon,
};

verus! {

/// The population cap the spawner honors.
pub const MAXIMUM_ENEMY_COUNT: usize = 10;

/// The fixed wall-clock cadence of the spawner, in milliseconds.
pub const ENEMY_SPAWN_INTERVAL_MS: u32 = 1_000;

/// Radial distance from the player at which new enemies appear.
pub const ENEMY_SPAWN_DISTANCE: i64 = 750_000;

/// Engagement range of the targeting cone, in milliunits.
pub const AIM_RANGE: i64 = 500_000;

/// Half the opening angle of the targeting cone, in millidegrees.
pub const CONE_HALF_ANGLE_MDEG: i64 = 30_000;

/// Axis-aligned overlap threshold for contact damage, in milliunits.
pub const ACTOR_SIZE: i64 = 30_000;

/// Largest frame delta one tick accepts, in milliseconds.
pub const MAX_FRAME_MS: u32 = 60_000;

/// The abstract input signals one tick consumes.
#[derive(Clone, Copy, PartialEq, Eq, Structural, Debug)]
pub struct TickInput {
    pub up: bool,
    pub down: bool,
    pub left: bool,
    pub right: bool,
    /// The fire button was just pressed.
    pub fire: bool,
    /// The manual-reload key is held.
    pub reload: bool,
    /// A numeric weapon hotkey (1 to 5) pressed this tick, if any.
    pub select_slot: Option<u8>,
    /// The cursor, already projected into world space.
    pub cursor: Vec2,
}

/// The whole simulation state, owned and mutated sequentially.
pub struct Simulation {
    pub player: Player,
    pub enemies: Vec<Enemy>,
    /// The stable, ordered arsenal; never grows or shrinks.
    pub weapons: Vec<Weapon>,
    /// Index into `weapons` of the currently selected weapon, if any.
    pub selected_weapon: Option<usize>,
    /// Accumulated time toward the next scheduled spawn.
    pub spawn_timer_ms: u32,
}

impl Simulation {
    /// The simulation invariant: every part well-formed, the population
    /// within the cap, the selection resolvable, and the spawn accumulator
    /// strictly inside one interval.
    pub open spec fn wf(self) -> bool {
        &&& self.player.wf()
        &&& forall|i: int| 0 <= i < self.enemies@.len() ==> (#[trigger] self.enemies@[i]).wf()
        &&& self.enemies@.len() <= MAXIMUM_ENEMY_COUNT
        &&& forall|i: int| 0 <= i < self.weapons@.len() ==> (#[trigger] self.weapons@[i]).wf()
        &&& match self.selected_weapon {
            Some(i) => i < self.weapons@.len(),
            None => true,
        }
        &&& self.spawn_timer_ms < ENEMY_SPAWN_INTERVAL_MS
    }

    /// The simulation in its starting state: the player at the origin, no
    /// enemies, the full catalog, and the first weapon selected.
    pub fn new() -> (r: Simulation)
        ensures
            r.player == spec_initial_player(),
            r.enemies@ == Seq::<Enemy>::empty(),
            r.weapons@ == spec_weapon_catalog(),
            r.selected_weapon == Some(0usize),
            r.spawn_timer_ms == 0u32,
            r.wf(),
    {
        let sim = Simulation {
            player: spawn_player(),
            enemies: Vec::new(),
            weapons: spawn_weapons(),
            selected_weapon: Some(0),
            spawn_timer_ms: 0,
        };
        sim
    }
}

/// The selection after a hotkey press: hotkey `s` picks slot `s - 1` when
/// that slot exists; anything else leaves the selection unchanged.
pub open spec fn spec_select_weapon(
    selected: Option<usize>,
    arsenal_size: int,
    slot: Option<u8>,
) -> Option<usize> {
    match slot {
        Some(s) => if 1 <= s && s <= arsenal_size {
            Some((s - 1) as usize)
        } else {
            selected
        },
        None => selected,
    }
}

/// The arsenal after a manual reload request: the selected weapon starts
/// reloading unless it already is; no selection, no request, no change.
pub open spec fn spec_reload_weapon(
    weapons: Seq<Weapon>,
    selected: Option<usize>,
    reload_pressed: bool,
) -> Seq<Weapon> {
    if reload_pressed {
        match selected {
            Some(i) => weapons.update(i as int, spec_start_reload(weapons[i as int])),
            None => weapons,
        }
    } else {
        weapons
    }
}

impl Simulation {
    /// Resolve a numeric hotkey into the weapon selection.
    pub fn select_weapon(&mut self, slot: Option<u8>)
        requires
            old(self).wf(),
        ensures
            final(self).selected_weapon == spec_select_weapon(
                old(self).selected_weapon,
                old(self).weapons@.len() as int,
                slot,
            ),
            final(self).player == old(self).player,
            final(self).enemies == old(self).enemies,
            final(self).weapons == old(self).weapons,
            final(self).spawn_timer_ms == old(self).spawn_timer_ms,
            final(self).wf(),
    {
        if let Some(s) = slot {
            if 1 <= s && (s as usize) <= self.weapons.len() {
                self.selected_weapon = Some((s - 1) as usize);
            }
        }
    }

    /// Apply a manual reload request to the selected weapon.
    pub fn reload_weapon(&mut self, reload_pressed: bool)
        requires
            old(self).wf(),
        ensures
            final(self).weapons@ == spec_reload_weapon(
                old(self).weapons@,
                old(self).selected_weapon,
                reload_pressed,
            ),
            final(self).player == old(self).player,
            final(self).enemies == old(self).enemies,
            final(self).selected_weapon == old(self).selected_weapon,
            final(self).spawn_timer_ms == old(self).spawn_timer_ms,
            final(self).wf(),
    {
        if reload_pressed {
            if let Some(i) = self.selected_weapon {
                self.weapons[i].start_reload();
            }
        }
    }

    /// Advance every weapon's fire-delay and reload countdowns by `dt_ms`:
    /// the one centralized timer step, selected or not.
    pub fn tick_weapon_timers(&mut self, dt_ms: u32)
        requires
            old(self).wf(),
        ensures
            final(self).weapons@ == old(self).weapons@.map_values(
                |w: Weapon| spec_weapon_tick(w, dt_ms),
            ),
            final(self).player == old(self).player,
            final(self).enemies == old(self).enemies,
            final(self).selected_weapon == old(self).selected_weapon,
            final(self).spawn_timer_ms == old(self).spawn_timer_ms,
            final(self).wf(),
    {
        let ghost orig = self.weapons@;
        let n = self.weapons.len();
        let mut i: usize = 0;
        while i < n
            invariant
                n == self.weapons@.len(),
                n == orig.len(),
                i <= n,
                forall|j: int| 0 <= j < i ==> self.weapons@[j] == spec_weapon_tick(
                    #[trigger] orig[j],
                    dt_ms,
                ),
                forall|j: int| i <= j < n ==> self.weapons@[j] == #[trigger] orig[j],
                forall|j: int| 0 <= j < n ==> (#[trigger] orig[j]).wf(),
                forall|j: int| 0 <= j < n ==> (#[trigger] self.weapons@[j]).wf(),
                self.player == old(self).player,
                self.enemies == old(self).enemies,
                self.selected_weapon == old(self).selected_weapon,
                self.spawn_timer_ms == old(self).spawn_timer_ms,
            decreases n - i,
        {
            self.weapons[i].tick(dt_ms);
            i = i + 1;
        }
        proof {
            assert(self.weapons@ =~= orig.map_values(|w: Weapon| spec_weapon_tick(w, dt_ms)));
        }
    }
}


/// The effect of one shot's cone on one enemy: removed on a lethal hit,
/// hurt on a non-lethal one, untouched outside the cone.
pub open spec fn spec_hit_one(e: Enemy, pp: Vec2, b: Vec2, c: Vec2, damage: i32) -> Seq<Enemy> {
    if spec_in_triangle(e.position, pp, b, c) {
        if damage >= e.health {
            Seq::<Enemy>::empty()
        } else {
            seq![Enemy { health: (e.health - damage) as i32, ..e }]
        }
    } else {
        seq![e]
    }
}

/// The enemies that survive one shot, in their original order: every enemy
/// inside the cone takes the full damage simultaneously; lethal hits are
/// removed.
pub open spec fn spec_cone_damage(
    enemies: Seq<Enemy>,
    pp: Vec2,
    b: Vec2,
    c: Vec2,
    damage: i32,
) -> Seq<Enemy>
    decreases enemies.len(),
{
    if enemies.len() == 0 {
        Seq::<Enemy>::empty()
    } else {
        spec_hit_one(enemies[0], pp, b, c, damage) + spec_cone_damage(
            enemies.drop_first(),
            pp,
            b,
            c,
            damage,
        )
    }
}

/// Resolving the cone over a sequence extended at its tail resolves the
/// tail element last.
proof fn lemma_cone_damage_push(
    enemies: Seq<Enemy>,
    e: Enemy,
    pp: Vec2,
    b: Vec2,
    c: Vec2,
    damage: i32,
)
    ensures
        spec_cone_damage(enemies.push(e), pp, b, c, damage) == spec_cone_damage(
            enemies,
            pp,
            b,
            c,
            damage,
        ) + spec_hit_one(e, pp, b, c, damage),
    decreases enemies.len(),
{
    if enemies.len() == 0 {
        assert(enemies.push(e).drop_first() =~= Seq::<Enemy>::empty());
        assert(spec_cone_damage(Seq::<Enemy>::empty(), pp, b, c, damage) == Seq::<
            Enemy,
        >::empty());
        assert(enemies =~= Seq::<Enemy>::empty());
        assert(enemies.push(e)[0] == e);
        assert(spec_cone_damage(enemies.push(e), pp, b, c, damage) =~= spec_cone_damage(
            enemies,
            pp,
            b,
            c,
            damage,
        ) + spec_hit_one(e, pp, b, c, damage));
    } else {
        assert(enemies.push(e).drop_first() =~= enemies.drop_first().push(e));
        assert(enemies.push(e)[0] == enemies[0]);
        lemma_cone_damage_push(enemies.drop_first(), e, pp, b, c, damage);
        assert(spec_cone_damage(enemies.push(e), pp, b, c, damage) =~= spec_cone_damage(
            enemies,
            pp,
            b,
            c,
            damage,
        ) + spec_hit_one(e, pp, b, c, damage));
    }
}

/// One corner of the targeting cone: the aim vector from the player toward
/// the cursor, scaled to the engagement range, rotated by `angle`
/// millidegrees, and anchored at the player.
pub open spec fn spec_cone_vertex(pp: Vec2, cursor: Vec2, angle: int) -> Vec2 {
    let aim = spec_scaled_vector_to(pp, cursor, AIM_RANGE as int);
    let rot = spec_rotated_by(aim, angle);
    Vec2 { x: (pp.x + rot.x) as i64, y: (pp.y + rot.y) as i64 }
}

/// Whether a fire request actually discharges the selected weapon.
pub open spec fn spec_shot_fired(
    weapons: Seq<Weapon>,
    selected: Option<usize>,
    fire_pressed: bool,
) -> bool {
    fire_pressed && match selected {
        Some(i) => {
            let w = weapons[i as int];
            w.fire_cooldown_ms == 0 && !w.reloading && w.current_ammo > 0
        },
        None => false,
    }
}

/// The arsenal after a fire request: one round spent from the selected
/// weapon exactly when the shot discharges.
pub open spec fn spec_weapons_after_shot(
    weapons: Seq<Weapon>,
    selected: Option<usize>,
    fire_pressed: bool,
) -> Seq<Weapon> {
    if spec_shot_fired(weapons, selected, fire_pressed) {
        let i = match selected {
            Some(i) => i as int,
            None => 0,
        };
        weapons.update(i, spec_fire(weapons[i]))
    } else {
        weapons
    }
}

/// The enemies after a fire request: the cone resolved against every enemy
/// exactly when the shot discharges.
pub open spec fn spec_enemies_after_shot(
    enemies: Seq<Enemy>,
    weapons: Seq<Weapon>,
    selected: Option<usize>,
    fire_pressed: bool,
    pp: Vec2,
    cursor: Vec2,
) -> Seq<Enemy> {
    if spec_shot_fired(weapons, selected, fire_pressed) {
        let i = match selected {
            Some(i) => i as int,
            None => 0,
        };
        let b = spec_cone_vertex(pp, cursor, CONE_HALF_ANGLE_MDEG as int);
        let c = spec_cone_vertex(pp, cursor, FULL_TURN_MDEG - CONE_HALF_ANGLE_MDEG as int);
        spec_cone_damage(enemies, pp, b, c, weapons[i].damage)
    } else {
        enemies
    }
}

impl Simulation {
    /// Apply one discharged shot: every enemy inside the cone anchored at
    /// the player and opened toward `cursor` takes `damage`; lethal hits are
    /// removed from the simulation.
    fn resolve_cone_damage(&mut self, cursor: Vec2, damage: i32)
        requires
            old(self).wf(),
            in_range(cursor, COORD_LIMIT as int),
            damage >= 1,
        ensures
            final(self).enemies@ == spec_cone_damage(
                old(self).enemies@,
                old(self).player.position,
                spec_cone_vertex(old(self).player.position, cursor, CONE_HALF_ANGLE_MDEG as int),
                spec_cone_vertex(
                    old(self).player.position,
                    cursor,
                    FULL_TURN_MDEG - CONE_HALF_ANGLE_MDEG as int,
                ),
                damage,
            ),
            final(self).enemies@.len() <= old(self).enemies@.len(),
            final(self).player == old(self).player,
            final(self).weapons == old(self).weapons,
            final(self).selected_weapon == old(self).selected_weapon,
            final(self).spawn_timer_ms == old(self).spawn_timer_ms,
            final(self).wf(),
    {
        let pp = self.player.position;
        let aim = pp.scaled_vector_to(&cursor, AIM_RANGE);
        let left = aim.rotated_by(CONE_HALF_ANGLE_MDEG);
        let right = aim.rotated_by(-CONE_HALF_ANGLE_MDEG);
        let b = pp.plus(&left);
        let c = pp.plus(&right);
        let ghost gb = spec_cone_vertex(pp, cursor, CONE_HALF_ANGLE_MDEG as int);
        let ghost gc = spec_cone_vertex(pp, cursor, FULL_TURN_MDEG - CONE_HALF_ANGLE_MDEG as int);
        assert(b == gb && c == gc);
        assert(in_range(b, COORD_LIMIT as int) && in_range(c, COORD_LIMIT as int));
        let n = self.enemies.len();
        let mut out: Vec<Enemy> = Vec::new();
        let mut idx: usize = 0;
        while idx < n
            invariant
                idx <= n,
                n == self.enemies@.len(),
                self == old(self),
                in_range(b, COORD_LIMIT as int),
                in_range(c, COORD_LIMIT as int),
                b == gb,
                c == gc,
                pp == old(self).player.position,
                old(self).wf(),
                damage >= 1,
                out@ == spec_cone_damage(self.enemies@.subrange(0, idx as int), pp, b, c, damage),
                out@.len() <= idx,
                forall|j: int| 0 <= j < out@.len() ==> (#[trigger] out@[j]).wf(),
            decreases n - idx,
        {
            let e = self.enemies[idx];
            let ghost prefix = self.enemies@.subrange(0, idx as int);
            if e.position.is_in_triangle(&pp, &b, &c) {
                if damage < e.health {
                    out.push(Enemy { health: e.health - damage, ..e });
                }
            } else {
                out.push(e);
            }
            proof {
                lemma_cone_damage_push(prefix, e, pp, b, c, damage);
                assert(self.enemies@.subrange(0, idx + 1) =~= prefix.push(e));
            }
            idx = idx + 1;
        }
        proof {
            assert(self.enemies@.subrange(0, n as int) =~= self.enemies@);
        }
        self.enemies = out;
    }

    /// Process a fire request against the selected weapon: the weapon itself
    /// decides whether a shot leaves, and a shot that does resolves cone
    /// damage at that instant. With nothing selected, or with the weapon not
    /// ready, nothing changes.
    pub fn shoot_weapon(&mut self, fire_pressed: bool, cursor: Vec2)
        requires
            old(self).wf(),
            in_range(cursor, COORD_LIMIT as int),
        ensures
            final(self).weapons@ == spec_weapons_after_shot(
                old(self).weapons@,
                old(self).selected_weapon,
                fire_pressed,
            ),
            final(self).enemies@ == spec_enemies_after_shot(
                old(self).enemies@,
                old(self).weapons@,
                old(self).selected_weapon,
                fire_pressed,
                old(self).player.position,
                cursor,
            ),
            final(self).enemies@.len() <= old(self).enemies@.len(),
            final(self).player == old(self).player,
            final(self).selected_weapon == old(self).selected_weapon,
            final(self).spawn_timer_ms == old(self).spawn_timer_ms,
            final(self).wf(),
    {
        if !fire_pressed {
            return;
        }
        if let Some(i) = self.selected_weapon {
            let fired = self.weapons[i].fire();
            if fired {
                let damage = self.weapons[i].damage;
                self.resolve_cone_damage(cursor, damage);
            } else {
                proof {
                    assert(self.weapons@ =~= old(self).weapons@);
                }
            }
        }
    }
}


/// Axis-aligned bounding-box overlap between two actors of the fixed visual
/// size: their centers are closer than one actor size on both axes.
pub open spec fn spec_overlaps(a: Vec2, b: Vec2) -> bool {
    &&& -(ACTOR_SIZE as int) < a.x - b.x < ACTOR_SIZE as int
    &&& -(ACTOR_SIZE as int) < a.y - b.y < ACTOR_SIZE as int
}

/// The player after the contact-damage and invincibility step: a vulnerable
/// player overlapping any enemy takes exactly one point of damage and
/// becomes invincible for the full window; an invincible player only runs
/// the window down, clearing the flag when it expires.
pub open spec fn spec_enemy_damage(player: Player, enemies: Seq<Enemy>, dt: u32) -> Player {
    if !player.invincible {
        if exists|i: int|
            0 <= i < enemies.len() && spec_overlaps(player.position, (#[trigger] enemies[i]).position) {
            Player {
                health: if player.health > i32::MIN {
                    (player.health - 1) as i32
                } else {
                    player.health
                },
                invincible: true,
                invincibility_ms: INVINCIBILITY_WINDOW_MS,
                ..player
            }
        } else {
            player
        }
    } else {
        let rem = countdown(player.invincibility_ms, dt);
        Player { invincible: rem >= 1, invincibility_ms: rem, ..player }
    }
}

/// Clamp one coordinate into the playable world.
pub open spec fn spec_clamp_coord(c: int) -> int {
    if c < -WORLD_LIMIT {
        -WORLD_LIMIT as int
    } else if c > WORLD_LIMIT {
        WORLD_LIMIT as int
    } else {
        c
    }
}

/// Translate a position by a displacement, clamped into the world.
pub open spec fn spec_translate_clamped(p: Vec2, d: Vec2) -> Vec2 {
    Vec2 {
        x: spec_clamp_coord(p.x + d.x) as i64,
        y: spec_clamp_coord(p.y + d.y) as i64,
    }
}

/// The point one world unit toward the held movement directions: opposite
/// directions cancel, orthogonal ones combine.
pub open spec fn spec_move_target(p: Vec2, up: bool, down: bool, left: bool, right: bool) -> Vec2 {
    Vec2 {
        x: (p.x + (if right {
            1000int
        } else {
            0int
        }) - (if left {
            1000int
        } else {
            0int
        })) as i64,
        y: (p.y + (if up {
            1000int
        } else {
            0int
        }) - (if down {
            1000int
        } else {
            0int
        })) as i64,
    }
}

/// Distance covered in `dt` milliseconds at `speed` milliunits per second.
pub open spec fn spec_move_scale(speed: i64, dt: u32) -> int {
    speed * dt / 1000
}

/// The player after one movement step: the target point built from the held
/// directions, approached at exactly `speed * dt` regardless of how many
/// directions are held (the normalization in `spec_scaled_vector_to` makes
/// diagonals no faster).
pub open spec fn spec_player_movement(
    player: Player,
    up: bool,
    down: bool,
    left: bool,
    right: bool,
    dt: u32,
) -> Player {
    let target = spec_move_target(player.position, up, down, left, right);
    let disp = spec_scaled_vector_to(player.position, target, spec_move_scale(player.speed, dt));
    Player { position: spec_translate_clamped(player.position, disp), ..player }
}

/// One enemy's pursuit step: move straight toward `target` at the enemy's
/// own speed, frame-rate independently.
pub open spec fn spec_enemy_step(e: Enemy, target: Vec2, dt: u32) -> Enemy {
    let disp = spec_scaled_vector_to(e.position, target, spec_move_scale(e.speed, dt));
    Enemy { position: spec_translate_clamped(e.position, disp), ..e }
}

/// Clamp one coordinate into the playable world.
fn clamp_coord(v: i64) -> (r: i64)
    ensures
        r == spec_clamp_coord(v as int),
        -WORLD_LIMIT <= r <= WORLD_LIMIT,
{
    if v < -WORLD_LIMIT {
        -WORLD_LIMIT
    } else if v > WORLD_LIMIT {
        WORLD_LIMIT
    } else {
        v
    }
}

/// `speed * dt / 1000`: the movement scale for one frame.
fn move_scale(speed: i64, dt_ms: u32) -> (r: i64)
    requires
        0 <= speed <= SPEED_LIMIT,
        dt_ms <= MAX_FRAME_MS,
    ensures
        r == spec_move_scale(speed, dt_ms),
        0 <= r <= COORD_LIMIT,
{
    proof {
        assert(speed * dt_ms <= 60_000_000_000) by (nonlinear_arith)
            requires
                0 <= speed <= 1_000_000,
                0 <= dt_ms <= 60_000,
        ;
        vstd::arithmetic::div_mod::lemma_div_pos_is_pos(speed * dt_ms, 1000);
        vstd::arithmetic::div_mod::lemma_div_is_ordered(speed * dt_ms, 60_000_000_000, 1000);
    }
    ((speed as u64) * (dt_ms as u64) / 1000) as i64
}

impl Simulation {
    /// The contact-damage and invincibility step: at most one point of
    /// damage per tick however many enemies overlap, and no contact test at
    /// all while the invincibility window runs.
    pub fn enemy_damage(&mut self, dt_ms: u32)
        requires
            old(self).wf(),
        ensures
            final(self).player == spec_enemy_damage(
                old(self).player,
                old(self).enemies@,
                dt_ms,
            ),
            final(self).enemies == old(self).enemies,
            final(self).weapons == old(self).weapons,
            final(self).selected_weapon == old(self).selected_weapon,
            final(self).spawn_timer_ms == old(self).spawn_timer_ms,
            final(self).wf(),
    {
        if !self.player.invincible {
            let pp = self.player.position;
            let n = self.enemies.len();
            let mut idx: usize = 0;
            let mut found: bool = false;
            while idx < n
                invariant
                    idx <= n,
                    self == old(self),
                    old(self).wf(),
                    n == self.enemies@.len(),
                    pp == self.player.position,
                    found == exists|j: int|
                        0 <= j < idx && spec_overlaps(pp, (#[trigger] self.enemies@[j]).position),
                decreases n - idx,
            {
                let e = &self.enemies[idx];
                let dx = pp.x - e.position.x;
                let dy = pp.y - e.position.y;
                if -ACTOR_SIZE < dx && dx < ACTOR_SIZE && -ACTOR_SIZE < dy && dy < ACTOR_SIZE {
                    found = true;
                }
                idx = idx + 1;
            }
            if found {
                if self.player.health > i32::MIN {
                    self.player.health = self.player.health - 1;
                }
                self.player.invincible = true;
                self.player.invincibility_ms = INVINCIBILITY_WINDOW_MS;
            }
        } else {
            if self.player.invincibility_ms <= dt_ms {
                self.player.invincibility_ms = 0;
                self.player.invincible = false;
            } else {
                self.player.invincibility_ms = self.player.invincibility_ms - dt_ms;
            }
        }
    }

    /// The player's movement step: held directions become one target point,
    /// approached at exactly the player's speed for this frame's duration.
    pub fn player_movement(&mut self, up: bool, down: bool, left: bool, right: bool, dt_ms: u32)
        requires
            old(self).wf(),
            dt_ms <= MAX_FRAME_MS,
        ensures
            final(self).player == spec_player_movement(
                old(self).player,
                up,
                down,
                left,
                right,
                dt_ms,
            ),
            final(self).enemies == old(self).enemies,
            final(self).weapons == old(self).weapons,
            final(self).selected_weapon == old(self).selected_weapon,
            final(self).spawn_timer_ms == old(self).spawn_timer_ms,
            final(self).wf(),
    {
        let p = self.player.position;
        let tx = p.x + (if right { 1000 } else { 0 }) - (if left { 1000 } else { 0 });
        let ty = p.y + (if up { 1000 } else { 0 }) - (if down { 1000 } else { 0 });
        let target = Vec2 { x: tx, y: ty };
        let scale = move_scale(self.player.speed, dt_ms);
        let disp = p.scaled_vector_to(&target, scale);
        self.player.position = Vec2 {
            x: clamp_coord(p.x + disp.x),
            y: clamp_coord(p.y + disp.y),
        };
    }

    /// Every enemy's pursuit step: each one moves straight toward the
    /// player's current position at its own speed, recomputed this tick.
    pub fn enemy_movement(&mut self, dt_ms: u32)
        requires
            old(self).wf(),
            dt_ms <= MAX_FRAME_MS,
        ensures
            final(self).enemies@ == old(self).enemies@.map_values(
                |e: Enemy| spec_enemy_step(e, old(self).player.position, dt_ms),
            ),
            final(self).player == old(self).player,
            final(self).weapons == old(self).weapons,
            final(self).selected_weapon == old(self).selected_weapon,
            final(self).spawn_timer_ms == old(self).spawn_timer_ms,
            final(self).wf(),
    {
        let ghost orig = self.enemies@;
        let pp = self.player.position;
        let n = self.enemies.len();
        let mut i: usize = 0;
        while i < n
            invariant
                i <= n,
                n == self.enemies@.len(),
                n == orig.len(),
                pp == self.player.position,
                old(self).wf(),
                dt_ms <= MAX_FRAME_MS,
                forall|j: int| 0 <= j < i ==> self.enemies@[j] == spec_enemy_step(
                    #[trigger] orig[j],
                    pp,
                    dt_ms,
                ),
                forall|j: int| i <= j < n ==> self.enemies@[j] == #[trigger] orig[j],
                forall|j: int| 0 <= j < n ==> (#[trigger] orig[j]).wf(),
                forall|j: int| 0 <= j < n ==> (#[trigger] self.enemies@[j]).wf(),
                self.player == old(self).player,
                self.weapons == old(self).weapons,
                self.selected_weapon == old(self).selected_weapon,
                self.spawn_timer_ms == old(self).spawn_timer_ms,
            decreases n - i,
        {
            let e = self.enemies[i];
            let scale = move_scale(e.speed, dt_ms);
            let disp = e.position.scaled_vector_to(&pp, scale);
            self.enemies[i] = Enemy {
                position: Vec2 {
                    x: clamp_coord(e.position.x + disp.x),
                    y: clamp_coord(e.position.y + disp.y),
                },
                ..e
            };
            i = i + 1;
        }
        proof {
            assert(self.enemies@ =~= orig.map_values(
                |e: Enemy| spec_enemy_step(e, old(self).player.position, dt_ms),
            ));
        }
    }
}


/// Where a scheduled spawn places its enemy: the fixed radial distance from
/// the player, at `angle` millidegrees, clamped into the world.
pub open spec fn spec_spawn_position(pp: Vec2, angle: int) -> Vec2 {
    let ox = div_trig(ENEMY_SPAWN_DISTANCE * cos_mdeg(angle));
    let oy = div_trig(ENEMY_SPAWN_DISTANCE * sin_mdeg(angle));
    Vec2 {
        x: spec_clamp_coord(pp.x + ox) as i64,
        y: spec_clamp_coord(pp.y + oy) as i64,
    }
}

/// A freshly spawned enemy around `pp`, with its spawn angle left abstract:
/// full configured health and speed, at the spawn distance for some angle.
pub open spec fn spec_fresh_enemy(e: Enemy, pp: Vec2) -> bool {
    &&& e.health == ENEMY_HEALTH
    &&& e.speed == ENEMY_SPEED
    &&& exists|a: int| 0 <= a < FULL_TURN_MDEG && e.position == spec_spawn_position(pp, a)
}

/// The population after `steps` scheduled spawns: each step adds exactly
/// one enemy if and only if the population is below the cap.
pub open spec fn spec_spawn_count(len: int, steps: int) -> int
    decreases steps,
{
    if steps <= 0 {
        len
    } else {
        spec_spawn_count(
            if len < MAXIMUM_ENEMY_COUNT {
                len + 1
            } else {
                len
            },
            steps - 1,
        )
    }
}

/// The spawner never exceeds the population cap, and never removes anybody:
/// however many scheduled steps elapse, a population within the cap stays
/// within it.
pub proof fn lemma_spawner_respects_cap(len: int, steps: int)
    requires
        0 <= len <= MAXIMUM_ENEMY_COUNT,
        0 <= steps,
    ensures
        len <= spec_spawn_count(len, steps) <= MAXIMUM_ENEMY_COUNT,
    decreases steps,
{
    if steps > 0 {
        if len < MAXIMUM_ENEMY_COUNT {
            lemma_spawner_respects_cap(len + 1, steps - 1);
        } else {
            lemma_spawner_respects_cap(len, steps - 1);
        }
    }
}

impl Simulation {
    /// The fixed-interval spawn scheduler: accumulate the frame delta, and
    /// for every whole interval that has elapsed, spawn one enemy at the
    /// spawn distance from the player under a random angle, unless the
    /// population cap is reached. Skipped spawns are not queued.
    pub fn enemy_spawner(&mut self, dt_ms: u32)
        requires
            old(self).wf(),
            dt_ms <= MAX_FRAME_MS,
        ensures
            final(self).spawn_timer_ms == (old(self).spawn_timer_ms + dt_ms) as int
                % ENEMY_SPAWN_INTERVAL_MS as int,
            final(self).enemies@.len() == spec_spawn_count(
                old(self).enemies@.len() as int,
                (old(self).spawn_timer_ms + dt_ms) as int / ENEMY_SPAWN_INTERVAL_MS as int,
            ),
            final(self).enemies@.take(old(self).enemies@.len() as int) == old(self).enemies@,
            forall|j: int|
                old(self).enemies@.len() <= j < final(self).enemies@.len()
                    ==> spec_fresh_enemy(#[trigger] final(self).enemies@[j], old(self).player.position),
            final(self).player == old(self).player,
            final(self).weapons == old(self).weapons,
            final(self).selected_weapon == old(self).selected_weapon,
            final(self).wf(),
    {
        let ghost orig = self.enemies@;
        let ghost t0 = (self.spawn_timer_ms + dt_ms) as int;
        let pp = self.player.position;
        let mut t: u32 = self.spawn_timer_ms + dt_ms;
        while t >= ENEMY_SPAWN_INTERVAL_MS
            invariant
                old(self).wf(),
                t <= t0,
                t as int % 1000 == t0 % 1000,
                pp == old(self).player.position,
                orig == old(self).enemies@,
                orig.len() <= self.enemies@.len() <= MAXIMUM_ENEMY_COUNT,
                spec_spawn_count(self.enemies@.len() as int, t as int / 1000) == spec_spawn_count(
                    orig.len() as int,
                    t0 / 1000,
                ),
                self.enemies@.take(orig.len() as int) == orig,
                forall|j: int|
                    orig.len() <= j < self.enemies@.len() ==> spec_fresh_enemy(
                        #[trigger] self.enemies@[j],
                        pp,
                    ),
                forall|j: int| 0 <= j < self.enemies@.len() ==> (#[trigger] self.enemies@[j]).wf(),
                self.player == old(self).player,
                self.weapons == old(self).weapons,
                self.selected_weapon == old(self).selected_weapon,
                self.spawn_timer_ms == old(self).spawn_timer_ms,
            decreases t,
        {
            t = t - ENEMY_SPAWN_INTERVAL_MS;
            if self.enemies.len() < MAXIMUM_ENEMY_COUNT {
                let ghost before = self.enemies@;
                let angle = random_angle_mdeg();
                let c = cos_fp(angle);
                let s = sin_fp(angle);
                let ox = scale_by_trig(ENEMY_SPAWN_DISTANCE, c);
                let oy = scale_by_trig(ENEMY_SPAWN_DISTANCE, s);
                let pos = Vec2 {
                    x: clamp_coord(pp.x + ox),
                    y: clamp_coord(pp.y + oy),
                };
                let e = spawn_enemy(pos);
                self.enemies.push(e);
                proof {
                    assert(e.position == spec_spawn_position(pp, angle as int));
                    assert(spec_fresh_enemy(e, pp));
                    assert(self.enemies@.take(orig.len() as int) =~= before.take(
                        orig.len() as int,
                    ));
                }
            }
        }
        self.spawn_timer_ms = t;
    }
}


impl Simulation {
    /// One whole simulation tick, in the fixed order: weapon selection, the
    /// centralized timer step, fire resolution with cone damage, the manual
    /// reload request, contact damage and invincibility, player movement,
    /// enemy pursuit, and finally the spawn scheduler. Everything but the
    /// spawn positions (which depend on random angles) is pinned exactly.
    pub fn tick(&mut self, input: &TickInput, dt_ms: u32)
        requires
            old(self).wf(),
            dt_ms <= MAX_FRAME_MS,
            in_range(input.cursor, COORD_LIMIT as int),
        ensures
            ({
                let sel = spec_select_weapon(
                    old(self).selected_weapon,
                    old(self).weapons@.len() as int,
                    input.select_slot,
                );
                let ticked = old(self).weapons@.map_values(
                    |w: Weapon| spec_weapon_tick(w, dt_ms),
                );
                let shot = spec_weapons_after_shot(ticked, sel, input.fire);
                let survivors = spec_enemies_after_shot(
                    old(self).enemies@,
                    ticked,
                    sel,
                    input.fire,
                    old(self).player.position,
                    input.cursor,
                );
                let hurt = spec_enemy_damage(old(self).player, survivors, dt_ms);
                let moved = spec_player_movement(
                    hurt,
                    input.up,
                    input.down,
                    input.left,
                    input.right,
                    dt_ms,
                );
                let pursuers = survivors.map_values(
                    |e: Enemy| spec_enemy_step(e, moved.position, dt_ms),
                );
                &&& final(self).selected_weapon == sel
                &&& final(self).weapons@ == spec_reload_weapon(shot, sel, input.reload)
                &&& final(self).player == moved
                &&& final(self).spawn_timer_ms == (old(self).spawn_timer_ms + dt_ms) as int
                    % ENEMY_SPAWN_INTERVAL_MS as int
                &&& final(self).enemies@.len() == spec_spawn_count(
                    pursuers.len() as int,
                    (old(self).spawn_timer_ms + dt_ms) as int / ENEMY_SPAWN_INTERVAL_MS as int,
                )
                &&& final(self).enemies@.take(pursuers.len() as int) == pursuers
                &&& forall|j: int|
                    pursuers.len() <= j < final(self).enemies@.len() ==> spec_fresh_enemy(
                        #[trigger] final(self).enemies@[j],
                        moved.position,
                    )
            }),
            final(self).wf(),
    {
        self.select_weapon(input.select_slot);
        self.tick_weapon_timers(dt_ms);
        self.shoot_weapon(input.fire, input.cursor);
        self.reload_weapon(input.reload);
        self.enemy_damage(dt_ms);
        self.player_movement(input.up, input.down, input.left, input.right, dt_ms);
        self.enemy_movement(dt_ms);
        self.enemy_spawner(dt_ms);
    }
}

/// Diagonal movement is no faster than single-axis movement: for one step at
/// scale `s` (speed times frame time), the squared displacement length with
/// two orthogonal directions held lies within a third of a percent of the
/// single-axis squared length `s * s`. (Exact equality is impossible in
/// integers: no integer vector with equal components has length exactly `s`.)
pub proof fn lemma_diagonal_speed_matches_single_axis(p: Vec2, s: int)
    requires
        0 <= s <= COORD_LIMIT,
        in_range(p, WORLD_LIMIT as int),
    ensures
        ({
            let single = spec_scaled_vector_to(
                p,
                spec_move_target(p, false, false, false, true),
                s,
            );
            let diag = spec_scaled_vector_to(p, spec_move_target(p, true, false, false, true), s);
            let single_sq = single.x * single.x + single.y * single.y;
            let diag_sq = diag.x * diag.x + diag.y * diag.y;
            &&& single_sq == s * s
            &&& 3300 * diag_sq <= 3301 * (s * s)
            &&& diag_sq >= s * s - 4 * s
        }),
{
    let single_target = spec_move_target(p, false, false, false, true);
    let diag_target = spec_move_target(p, true, false, false, true);
    assert(single_target.x - p.x == 1000 && single_target.y - p.y == 0);
    assert(diag_target.x - p.x == 1000 && diag_target.y - p.y == 1000);
    assert(1000nat * 1000nat == 1_000_000 && 1001nat * 1001nat == 1_002_001) by (nonlinear_arith);
    assert(1414nat * 1414nat == 1_999_396 && 1415nat * 1415nat == 2_002_225) by (nonlinear_arith);
    crate::vec2::lemma_sqrt_floor_unique(1_000_000nat, 1000nat);
    crate::vec2::lemma_sqrt_floor_unique(2_000_000nat, 1414nat);
    let single = spec_scaled_vector_to(p, single_target, s);
    let diag = spec_scaled_vector_to(p, diag_target, s);
    // The single-axis step is exact: 1000 * s / 1000 == s.
    vstd::arithmetic::div_mod::lemma_div_multiples_vanish(s, 1000);
    assert(1000 * s == s * 1000) by (nonlinear_arith);
    assert(single.x == s && single.y == 0);
    assert(single.x * single.x + single.y * single.y == s * s) by (nonlinear_arith)
        requires
            single.x == s,
            single.y == 0,
    ;
    // The diagonal step has both components equal to q = 1000 * s / 1414.
    let q = 1000 * s / 1414;
    assert(diag.x == q && diag.y == q);
    vstd::arithmetic::div_mod::lemma_fundamental_div_mod(1000 * s, 1414);
    vstd::arithmetic::div_mod::lemma_mod_bound(1000 * s, 1414);
    vstd::arithmetic::div_mod::lemma_div_pos_is_pos(1000 * s, 1414);
    let r = (1000 * s) % 1414;
    assert(1000 * s == 1414 * q + r && 0 <= r < 1414 && q >= 0);
    // Upper bound: from 1414 q <= 1000 s, squaring gives
    // 1999396 q^2 <= 1000000 s^2, and 6600 * 1999396 >= 3301... scaled down,
    // 3300 * 2 q^2 <= 3301 s^2.
    assert((1414 * q) * (1414 * q) <= (1000 * s) * (1000 * s)) by (nonlinear_arith)
        requires
            0 <= 1414 * q <= 1000 * s,
    ;
    assert((1414 * q) * (1414 * q) == 1999396 * (q * q) && (1000 * s) * (1000 * s) == 1000000 * (
    s * s)) by (nonlinear_arith);
    assert(q * q >= 0) by (nonlinear_arith);
    assert(3300 * (q * q + q * q) <= 3301 * (s * s));
    // Lower bound: from 1000 s <= 1414 q + 1413, squaring gives
    // 1000000 s^2 <= 1999396 q^2 + 3995964 q + 1996569.
    assert((1000 * s) * (1000 * s) <= (1414 * q + 1413) * (1414 * q + 1413)) by (nonlinear_arith)
        requires
            0 <= 1000 * s <= 1414 * q + 1413,
    ;
    assert((1414 * q + 1413) * (1414 * q + 1413) == 1999396 * (q * q) + 3995964 * q + 1996569)
        by (nonlinear_arith);
    if q >= 2 {
        // 4000000 s >= 5656000 q covers the cross terms.
        assert(q * q + q * q >= s * s - 4 * s);
    } else {
        // q <= 1 forces s <= 2, where s * s - 4 * s is not positive.
        assert(1000 * s <= 2827);
        assert(s <= 2);
        assert(s * s - 4 * s <= 0) by (nonlinear_arith)
            requires
                0 <= s <= 2,
        ;
    }
}


impl Simulation {
    /// The player's health, read by the presentation layer.
    pub fn player_health(&self) -> (r: i32)
        ensures
            r == self.player.health,
    {
        self.player.health
    }

    /// The player's position, read by the presentation layer.
    pub fn player_position(&self) -> (r: Vec2)
        ensures
            r == self.player.position,
    {
        self.player.position
    }

    /// The live enemy population.
    pub fn enemy_count(&self) -> (r: usize)
        ensures
            r == self.enemies@.len(),
    {
        self.enemies.len()
    }

    /// The display name of the selected weapon, if one is selected.
    pub fn selected_weapon_name(&self) -> (r: Option<&'static str>)
        requires
            self.wf(),
        ensures
            match self.selected_weapon {
                Some(i) => match r {
                    Some(n) => n@ == self.weapons@[i as int].kind.spec_name(),
                    None => false,
                },
                None => r == None::<&'static str>,
            },
    {
        match self.selected_weapon {
            Some(i) => Some(self.weapons[i].kind.name()),
            None => None,
        }
    }

    /// Current and maximum ammunition of the selected weapon, if one is
    /// selected.
    pub fn selected_weapon_ammo(&self) -> (r: Option<(u32, u32)>)
        requires
            self.wf(),
        ensures
            r == match self.selected_weapon {
                Some(i) => Some(
                    (self.weapons@[i as int].current_ammo, self.weapons@[i as int].maximum_ammo),
                ),
                None => None::<(u32, u32)>,
            },
    {
        match self.selected_weapon {
            Some(i) => Some((self.weapons[i].current_ammo, self.weapons[i].maximum_ammo)),
            None => None,
        }
    }
}

} // verus!
