//! The player's motion, one simulation step at a time.
//!
//! A step lets the timed effects act, turns the held keys, gravity and drag
//! into forces, integrates them into a velocity and a proposed position,
//! resolves that position against the obstacles of the map, and commits the
//! corrected position together with the contact flags.

use vstd::prelude::*;
use crate::collisions::{
    blocks, collides, faces, lemma_floor_is_a_top_edge, lemma_no_tunnelling,
    lemma_resolution_resolves, lemma_resolved_is_resolution, lemma_resolved_merged, resolution,
    resolved, runs_into, valid_obstacles, Collisions, HasBounds, Rect, Side,
};
use crate::fixed::{
    fx_abs, fx_add, fx_div, fx_midpoint, fx_mul, fx_sub, in_range, midpoint, sat_abs, sat_add,
    sat_div, sat_mul, sat_sub, COORD_MAX, UNIT,
};
use crate::map::LevelMap;

verus! {

/// Width of the player's collision box, in whole units.
pub const PLAYER_COLLISION_WIDTH: u32 = 10;

/// Height of the player's collision box, in whole units.
pub const PLAYER_COLLISION_HEIGHT: u32 = 20;

/// A new value for one of the settings.
#[derive(Copy, Clone, Debug)]
pub enum SettingsUpdate {
    Weight(i64),
    InputForce(i64),
    JumpBoost(i64),
    WallBoostX(i64),
    WallBoostY(i64),
    GravityForce(i64),
    DragConstant(i64),
    TickConstant(i64),
    JumpDuration(i64),
}

/// The tunable constants of the player's motion.
#[derive(Copy, Clone, Debug)]
pub struct PlayerSettings {
    /// The player's mass. A step divides by it, so it must not be zero.
    pub weight: i64,
    /// Horizontal force of a held direction key.
    pub input_force: i64,
    /// Upward velocity gained by a jump from the ground, and the lift per
    /// unit of time while the jump lasts.
    pub jump_boost: i64,
    /// Upward velocity gained by a jump off a wall.
    pub wall_boost_y: i64,
    /// Velocity away from the wall gained by a jump off it.
    pub wall_boost_x: i64,
    /// Downward force on a player that is not grounded.
    pub gravity_force: i64,
    /// Factor of the quadratic drag.
    pub drag_constant: i64,
    /// Simulated time per unit of elapsed time.
    pub tick_constant: i64,
    /// How long the lift of a jump lasts.
    pub jump_duration: i64,
}

impl PlayerSettings {
    /// The settings that a new player starts with.
    pub open spec fn standard() -> PlayerSettings {
        PlayerSettings {
            weight: 3_000_000,
            input_force: 367_000_000,
            jump_boost: 400_000_000,
            wall_boost_y: 250_000_000,
            wall_boost_x: 450_000_000,
            gravity_force: 305_000_000,
            drag_constant: 80_000,
            tick_constant: 3_700_000,
            jump_duration: 20_000_000,
        }
    }

    /// The settings with one of them replaced.
    pub open spec fn updated(self, update: SettingsUpdate) -> PlayerSettings {
        match update {
            SettingsUpdate::Weight(v) => PlayerSettings { weight: v, ..self },
            SettingsUpdate::InputForce(v) => PlayerSettings { input_force: v, ..self },
            SettingsUpdate::JumpBoost(v) => PlayerSettings { jump_boost: v, ..self },
            SettingsUpdate::WallBoostX(v) => PlayerSettings { wall_boost_x: v, ..self },
            SettingsUpdate::WallBoostY(v) => PlayerSettings { wall_boost_y: v, ..self },
            SettingsUpdate::GravityForce(v) => PlayerSettings { gravity_force: v, ..self },
            SettingsUpdate::DragConstant(v) => PlayerSettings { drag_constant: v, ..self },
            SettingsUpdate::TickConstant(v) => PlayerSettings { tick_constant: v, ..self },
            SettingsUpdate::JumpDuration(v) => PlayerSettings { jump_duration: v, ..self },
        }
    }

    /// The settings after a run of updates, applied in order.
    pub open spec fn updated_all(self, updates: Seq<SettingsUpdate>) -> PlayerSettings {
        updates.fold_left(self, |s: PlayerSettings, u: SettingsUpdate| s.updated(u))
    }

    /// The standard settings.
    pub fn new() -> (s: PlayerSettings)
        ensures
            s == PlayerSettings::standard(),
    {
        PlayerSettings {
            weight: 3_000_000,
            input_force: 367_000_000,
            jump_boost: 400_000_000,
            wall_boost_y: 250_000_000,
            wall_boost_x: 450_000_000,
            gravity_force: 305_000_000,
            drag_constant: 80_000,
            tick_constant: 3_700_000,
            jump_duration: 20_000_000,
        }
    }

    /// Replaces one setting.
    pub fn apply(&mut self, update: SettingsUpdate)
        ensures
            *final(self) == old(self).updated(update),
    {
        match update {
            SettingsUpdate::Weight(v) => self.weight = v,
            SettingsUpdate::InputForce(v) => self.input_force = v,
            SettingsUpdate::JumpBoost(v) => self.jump_boost = v,
            SettingsUpdate::WallBoostX(v) => self.wall_boost_x = v,
            SettingsUpdate::WallBoostY(v) => self.wall_boost_y = v,
            SettingsUpdate::GravityForce(v) => self.gravity_force = v,
            SettingsUpdate::DragConstant(v) => self.drag_constant = v,
            SettingsUpdate::TickConstant(v) => self.tick_constant = v,
            SettingsUpdate::JumpDuration(v) => self.jump_duration = v,
        }
    }

    /// Takes in the updates that have arrived since the last step, oldest
    /// first.
    pub fn get_updates(&mut self, pending: &[SettingsUpdate])
        ensures
            *final(self) == old(self).updated_all(pending@),
    {
        let ghost step = |s: PlayerSettings, u: SettingsUpdate| s.updated(u);
        let mut i: usize = 0;
        while i < pending.len()
            invariant
                i <= pending@.len(),
                step == |s: PlayerSettings, u: SettingsUpdate| s.updated(u),
                *self == pending@.take(i as int).fold_left(*old(self), step),
            decreases pending@.len() - i,
        {
            proof {
                let t = pending@.take(i + 1);
                assert(t.drop_last() == pending@.take(i as int));
                assert(t.last() == pending@[i as int]);
            }
            self.apply(pending[i]);
            i = i + 1;
        }
        assert(pending@.take(i as int) == pending@);
    }
}

impl Default for PlayerSettings {
    fn default() -> (s: PlayerSettings)
        ensures
            s == PlayerSettings::standard(),
    {
        PlayerSettings::new()
    }
}

/// Which way the player last meant to go, and whether it still does.
#[derive(Copy, Clone, Debug, PartialEq, Eq, Structural)]
pub enum MovementState {
    MovingLeft,
    MovingRight,
    StillLeft,
    StillRight,
}

impl MovementState {
    /// The state that faces the same way and stands still.
    pub open spec fn stilled(self) -> MovementState {
        match self {
            MovementState::MovingLeft => MovementState::StillLeft,
            MovementState::MovingRight => MovementState::StillRight,
            other => other,
        }
    }

    /// Stops moving, facing the same way as before.
    pub fn set_still(&mut self)
        ensures
            *final(self) == old(self).stilled(),
    {
        match *self {
            MovementState::MovingLeft => *self = MovementState::StillLeft,
            MovementState::MovingRight => *self = MovementState::StillRight,
            _ => (),
        }
    }
}

impl Default for MovementState {
    fn default() -> (m: MovementState)
        ensures
            m == MovementState::StillRight,
    {
        MovementState::StillRight
    }
}

/// The kinds of timed effect.
#[derive(Copy, Clone, Debug, PartialEq, Eq, Structural)]
pub enum EffectType {
    /// The lift that follows a jump from the ground. It ends when the time
    /// is used up, or at once when the player is grounded.
    Jumping,
}

/// A modifier of the player's velocity that lasts for a limited time.
#[derive(Copy, Clone, Debug)]
pub struct Effect {
    pub time_remaining: i64,
    pub effect: EffectType,
}

impl Effect {
    /// How much of a step of length `dt` the effect acts for: all of it, or
    /// what time the effect has left if that is less.
    pub open spec fn time_used(self, dt: int) -> int {
        if self.time_remaining < dt {
            self.time_remaining as int
        } else {
            dt
        }
    }

    /// The vertical velocity to which the effect takes `v` in a step of
    /// length `dt`.
    pub open spec fn lifted(self, grounded: bool, boost: int, dt: int, v: int) -> int {
        match self.effect {
            EffectType::Jumping => if grounded {
                v
            } else {
                sat_add(v, sat_mul(boost, self.time_used(dt)))
            },
        }
    }

    /// The time that the effect has left after a step of length `dt`.
    pub open spec fn time_left(self, grounded: bool, dt: int) -> int {
        match self.effect {
            EffectType::Jumping => if grounded {
                0
            } else {
                sat_sub(self.time_remaining as int, self.time_used(dt))
            },
        }
    }

    /// The effect after a step of length `dt`, unless that step ends it.
    pub open spec fn carried_over(self, grounded: bool, dt: int) -> Option<Effect> {
        if self.time_left(grounded, dt) > 0 {
            Some(Effect { time_remaining: self.time_left(grounded, dt) as i64, effect: self.effect })
        } else {
            None
        }
    }

    /// Lets the effect act for one step of length `time_changed` on the
    /// vertical velocity `velocity_y`, and returns the new velocity.
    pub fn effect(&mut self, grounded: bool, boost: i64, velocity_y: i64, time_changed: i64) -> (v: i64)
        ensures
            v == old(self).lifted(grounded, boost as int, time_changed as int, velocity_y as int),
            final(self).time_remaining == old(self).time_left(grounded, time_changed as int),
            final(self).effect == old(self).effect,
    {
        let delta_time = if self.time_remaining < time_changed {
            self.time_remaining
        } else {
            time_changed
        };
        match self.effect {
            EffectType::Jumping => {
                if grounded {
                    self.time_remaining = 0;
                    velocity_y
                } else {
                    self.time_remaining = fx_sub(self.time_remaining, delta_time);
                    fx_add(velocity_y, fx_mul(boost, delta_time))
                }
            },
        }
    }
}

/// The box of a player whose minimum corner is at `(x, y)`.
pub open spec fn player_rect(x: int, y: int) -> Rect {
    Rect {
        min_x: x,
        min_y: y,
        len_x: PLAYER_COLLISION_WIDTH * UNIT,
        len_y: PLAYER_COLLISION_HEIGHT * UNIT,
    }
}

/// The quadratic drag on a body of velocity `v`: it grows with the square
/// of the speed and has the sign of the velocity.
pub open spec fn drag(drag_constant: int, v: int) -> int {
    sat_mul(sat_mul(drag_constant, v), sat_abs(v))
}

/// The change of velocity that `force` makes in a step of length `dt`.
pub open spec fn impulse(settings: PlayerSettings, force: int, dt: int) -> int {
    sat_mul(
        sat_mul(sat_div(force, settings.weight as int), dt),
        settings.tick_constant as int,
    )
}

/// The way that a body of velocity `v` goes in a step of length `dt`.
pub open spec fn travel(settings: PlayerSettings, v: int, dt: int) -> int {
    sat_mul(sat_mul(v, dt), settings.tick_constant as int)
}

/// The velocity to which one effect takes `v`.
pub open spec fn lift_step(grounded: bool, boost: int, dt: int) -> spec_fn(int, Effect) -> int {
    |v: int, e: Effect| e.lifted(grounded, boost, dt, v)
}

/// What remains of one effect.
pub open spec fn carry_step(grounded: bool, dt: int) -> spec_fn(Effect) -> Option<Effect> {
    |e: Effect| e.carried_over(grounded, dt)
}

/// What may happen to a player between two looks at it.
#[derive(Copy, Clone, Debug)]
pub enum Event {
    /// A key went down.
    Press(Key),
    /// A key came up.
    Release(Key),
    /// Time has passed: one simulation step of length `dt` is due.
    Update { dt: i64 },
    /// Anything else.
    Other,
}

/// The keys that the game listens to. A player listens to `Up`, `Left` and
/// `Right`.
#[derive(Copy, Clone, Debug, PartialEq, Eq, Structural)]
pub enum Key {
    Up,
    Down,
    Left,
    Right,
    Return,
    Escape,
    Other,
}

/// The state of a player as the contracts see it.
pub struct PlayerModel {
    pub grounded: bool,
    pub on_left_wall: bool,
    pub on_right_wall: bool,
    pub x: int,
    pub y: int,
    pub last_movement: MovementState,
    pub velocity_x: int,
    pub velocity_y: int,
    pub effects: Seq<Effect>,
    pub input_left: bool,
    pub input_right: bool,
    pub settings: PlayerSettings,
}

impl PlayerModel {
    /// The box that the player occupies.
    pub open spec fn bounds(self) -> Rect {
        player_rect(self.x, self.y)
    }

    /// The timed effects have acted for a step of length `dt`, and those
    /// that the step ended are gone.
    pub open spec fn after_effects(self, dt: int) -> PlayerModel {
        PlayerModel {
            velocity_y: self.effects.fold_left(
                self.velocity_y,
                lift_step(self.grounded, self.settings.jump_boost as int, dt),
            ),
            effects: self.effects.filter_map(carry_step(self.grounded, dt)),
            ..self
        }
    }

    /// The horizontal force of the held keys: one direction key alone
    /// pushes its way, both or neither push nowhere.
    pub open spec fn steering(self) -> int {
        match (self.input_left, self.input_right) {
            (false, true) => sat_add(0, self.settings.input_force as int),
            (true, false) => sat_sub(0, self.settings.input_force as int),
            _ => 0,
        }
    }

    /// The movement state that the held keys ask for.
    pub open spec fn steered(self) -> MovementState {
        match (self.input_left, self.input_right) {
            (false, true) => MovementState::MovingRight,
            (true, false) => MovementState::MovingLeft,
            _ => self.last_movement.stilled(),
        }
    }

    /// Gravity, which pulls on a player that is not grounded.
    pub open spec fn weight_force(self) -> int {
        if self.grounded {
            0
        } else {
            sat_sub(0, self.settings.gravity_force as int)
        }
    }

    /// The total horizontal force.
    pub open spec fn force_x(self) -> int {
        sat_sub(self.steering(), drag(self.settings.drag_constant as int, self.velocity_x))
    }

    /// The total vertical force.
    pub open spec fn force_y(self) -> int {
        sat_sub(self.weight_force(), drag(self.settings.drag_constant as int, self.velocity_y))
    }

    /// The forces have acted on the velocity for a step of length `dt`.
    pub open spec fn accelerated(self, dt: int) -> PlayerModel {
        PlayerModel {
            last_movement: self.steered(),
            velocity_x: sat_add(self.velocity_x, impulse(self.settings, self.force_x(), dt)),
            velocity_y: sat_add(self.velocity_y, impulse(self.settings, self.force_y(), dt)),
            ..self
        }
    }

    /// Where the player would be after a step of length `dt` at its
    /// present velocity, if nothing stood in the way.
    pub open spec fn proposed_x(self, dt: int) -> int {
        sat_add(self.x, travel(self.settings, self.velocity_x, dt))
    }

    /// See [`Self::proposed_x`].
    pub open spec fn proposed_y(self, dt: int) -> int {
        sat_add(self.y, travel(self.settings, self.velocity_y, dt))
    }

    /// The horizontal position that the step commits, and whether the
    /// player was stopped there. Between two walls the player is pinned at
    /// the middle; a single wall stops a player that does not move away
    /// from it; otherwise the proposed position stands.
    pub open spec fn settled_x(self, px: int, c: Collisions) -> (int, bool) {
        match (c.west, px <= self.x, c.east, px >= self.x) {
            (Some(w1), _, Some(w2), _) => (midpoint(w1 as int, w2 as int), true),
            (Some(wall), true, None, _) => (wall as int, true),
            (None, _, Some(wall), true) => (wall as int, true),
            _ => (px, false),
        }
    }

    /// The vertical position that the step commits, and whether the player
    /// was stopped there. Between floor and ceiling the floor wins; a single
    /// one stops a player that does not move away from it; otherwise the
    /// proposed position stands.
    pub open spec fn settled_y(self, py: int, c: Collisions) -> (int, bool) {
        match (c.south, py <= self.y, c.north, py >= self.y) {
            (Some(floor), _, Some(_), _) => (floor as int, true),
            (Some(wall), true, None, _) => (wall as int, true),
            (None, _, Some(wall), true) => (wall as int, true),
            _ => (py, false),
        }
    }

    /// The step ends: the contact flags are those of the outcome `c`, and
    /// the position is the proposed one, `(px, py)`, corrected by `c`. A
    /// player stopped horizontally stands still; one stopped vertically
    /// loses its vertical velocity.
    pub open spec fn committed(self, px: int, py: int, c: Collisions) -> PlayerModel {
        let (x, stopped_x) = self.settled_x(px, c);
        let (y, stopped_y) = self.settled_y(py, c);
        PlayerModel {
            grounded: c.south is Some,
            on_left_wall: c.west is Some,
            on_right_wall: c.east is Some,
            x,
            y,
            last_movement: if stopped_x {
                self.last_movement.stilled()
            } else {
                self.last_movement
            },
            velocity_y: if stopped_y {
                0
            } else {
                self.velocity_y
            },
            ..self
        }
    }

    /// The outcome of resolving the step of length `dt` against
    /// `obstacles`, for a player whose velocity is already that of the
    /// step.
    pub open spec fn contact(self, dt: int, obstacles: Seq<Rect>) -> Collisions {
        resolution(self.bounds(), self.proposed_x(dt), self.proposed_y(dt), obstacles)
    }

    /// The player with the velocity of the step of length `dt`: the effects
    /// have acted and the forces have been taken in, but nothing has moved
    /// yet.
    pub open spec fn moving(self, dt: int) -> PlayerModel {
        self.after_effects(dt).accelerated(dt)
    }

    /// What the step of length `dt` among `obstacles` runs into.
    pub open spec fn found(self, dt: int, obstacles: Seq<Rect>) -> Collisions {
        self.moving(dt).contact(dt, obstacles)
    }

    /// One whole simulation step of length `dt` among `obstacles`.
    pub open spec fn step(self, dt: int, obstacles: Seq<Rect>) -> PlayerModel {
        let m = self.moving(dt);
        m.committed(m.proposed_x(dt), m.proposed_y(dt), m.contact(dt, obstacles))
    }

    /// The jump key went down. From the ground the player gains upward
    /// velocity and a lift that lasts a while; off a wall it gains velocity
    /// upward and away from the wall, and faces away from it; in mid-air
    /// nothing happens.
    pub open spec fn jumped(self) -> PlayerModel {
        if self.grounded {
            PlayerModel {
                velocity_y: sat_add(self.velocity_y, self.settings.jump_boost as int),
                effects: self.effects.push(
                    Effect {
                        time_remaining: self.settings.jump_duration,
                        effect: EffectType::Jumping,
                    },
                ),
                ..self
            }
        } else if self.on_left_wall {
            PlayerModel {
                velocity_x: sat_add(self.velocity_x, self.settings.wall_boost_x as int),
                velocity_y: sat_add(self.velocity_y, self.settings.wall_boost_y as int),
                last_movement: MovementState::MovingRight,
                ..self
            }
        } else if self.on_right_wall {
            PlayerModel {
                velocity_x: sat_sub(self.velocity_x, self.settings.wall_boost_x as int),
                velocity_y: sat_add(self.velocity_y, self.settings.wall_boost_y as int),
                last_movement: MovementState::MovingLeft,
                ..self
            }
        } else {
            self
        }
    }

    /// The player after one event.
    pub open spec fn handled(self, event: Event, obstacles: Seq<Rect>) -> PlayerModel {
        match event {
            Event::Press(Key::Up) => self.jumped(),
            Event::Press(Key::Left) => PlayerModel { input_left: true, ..self },
            Event::Press(Key::Right) => PlayerModel { input_right: true, ..self },
            Event::Release(Key::Left) => PlayerModel { input_left: false, ..self },
            Event::Release(Key::Right) => PlayerModel { input_right: false, ..self },
            Event::Update { dt } => self.step(dt as int, obstacles),
            _ => self,
        }
    }
}

/// The state of the player's motion.
pub struct PlayerState {
    /// Something stopped the player from below in the last step.
    pub grounded: bool,
    /// Something stopped the player from the left in the last step.
    pub on_left_wall: bool,
    /// Something stopped the player from the right in the last step.
    pub on_right_wall: bool,
    pub absolute_x: i64,
    pub absolute_y: i64,
    pub last_movement: MovementState,
    pub velocity_x: i64,
    pub velocity_y: i64,
    pub current_effects: Vec<Effect>,
    pub input_left: bool,
    pub input_right: bool,
    pub settings: PlayerSettings,
}

impl View for PlayerState {
    type V = PlayerModel;

    open spec fn view(&self) -> PlayerModel {
        PlayerModel {
            grounded: self.grounded,
            on_left_wall: self.on_left_wall,
            on_right_wall: self.on_right_wall,
            x: self.absolute_x as int,
            y: self.absolute_y as int,
            last_movement: self.last_movement,
            velocity_x: self.velocity_x as int,
            velocity_y: self.velocity_y as int,
            effects: self.current_effects@,
            input_left: self.input_left,
            input_right: self.input_right,
            settings: self.settings,
        }
    }
}

impl HasBounds for PlayerState {
    open spec fn bounds(&self) -> Rect {
        player_rect(self.absolute_x as int, self.absolute_y as int)
    }

    fn min_x(&self) -> (v: i64) {
        self.absolute_x
    }

    fn min_y(&self) -> (v: i64) {
        self.absolute_y
    }

    fn len_x(&self) -> (v: i64) {
        PLAYER_COLLISION_WIDTH as i64 * UNIT
    }

    fn len_y(&self) -> (v: i64) {
        PLAYER_COLLISION_HEIGHT as i64 * UNIT
    }
}

impl PlayerState {
    /// A player at rest at `(x, y)`, in mid-air, facing right, with the
    /// standard settings.
    pub open spec fn at_rest(x: int, y: int) -> PlayerModel {
        PlayerModel {
            grounded: false,
            on_left_wall: false,
            on_right_wall: false,
            x,
            y,
            last_movement: MovementState::StillRight,
            velocity_x: 0,
            velocity_y: 0,
            effects: Seq::empty(),
            input_left: false,
            input_right: false,
            settings: PlayerSettings::standard(),
        }
    }

    /// A player at rest at `(x, y)`.
    pub fn new(x: i64, y: i64) -> (s: PlayerState)
        ensures
            s@ == PlayerState::at_rest(x as int, y as int),
    {
        PlayerState {
            grounded: false,
            on_left_wall: false,
            on_right_wall: false,
            absolute_x: x,
            absolute_y: y,
            last_movement: MovementState::default(),
            velocity_x: 0,
            velocity_y: 0,
            current_effects: Vec::new(),
            input_left: false,
            input_right: false,
            settings: PlayerSettings::new(),
        }
    }

    /// Lets the timed effects act for a step of length `dt` and drops those
    /// that the step ends.
    pub fn run_effects(&mut self, dt: i64)
        ensures
            final(self)@ == old(self)@.after_effects(dt as int),
    {
        let grounded = self.grounded;
        let boost = self.settings.jump_boost;
        let ghost lift = lift_step(grounded, boost as int, dt as int);
        let ghost carry = carry_step(grounded, dt as int);
        let ghost all = self.current_effects@;
        let mut velocity_y = self.velocity_y;
        let mut kept: Vec<Effect> = Vec::new();
        let mut i: usize = 0;
        while i < self.current_effects.len()
            invariant
                i <= all.len(),
                all == self.current_effects@,
                lift == lift_step(grounded, boost as int, dt as int),
                carry == carry_step(grounded, dt as int),
                velocity_y == all.take(i as int).fold_left(old(self).velocity_y as int, lift),
                kept@ == all.take(i as int).filter_map(carry),
                *self == *old(self),
            decreases all.len() - i,
        {
            let mut effect = self.current_effects[i];
            proof {
                let t = all.take(i + 1);
                assert(t.drop_last() == all.take(i as int));
                assert(t.last() == all[i as int]);
                all.lemma_filter_map_take_succ(carry, i as int);
            }
            velocity_y = effect.effect(grounded, boost, velocity_y, dt);
            if effect.time_remaining > 0 {
                kept.push(effect);
            }
            i = i + 1;
        }
        assert(all.take(i as int) == all);
        self.velocity_y = velocity_y;
        self.current_effects = kept;
    }

    /// Begins a step of length `dt`: lets the effects act, turns the held
    /// keys, gravity and drag into forces and the forces into velocity, and
    /// returns the position that the player would reach if nothing stood in
    /// the way.
    pub fn propose(&mut self, dt: i64) -> (next: (i64, i64))
        requires
            old(self).settings.weight != 0,
        ensures
            final(self)@ == old(self)@.moving(dt as int),
            next.0 == final(self)@.proposed_x(dt as int),
            next.1 == final(self)@.proposed_y(dt as int),
    {
        self.run_effects(dt);

        let mut force_x: i64 = 0;
        let mut force_y: i64 = 0;

        match (self.input_left, self.input_right) {
            (false, true) => {
                force_x = fx_add(force_x, self.settings.input_force);
                self.last_movement = MovementState::MovingRight;
            },
            (true, false) => {
                force_x = fx_sub(force_x, self.settings.input_force);
                self.last_movement = MovementState::MovingLeft;
            },
            (_, _) => self.last_movement.set_still(),
        }

        if !self.grounded {
            force_y = fx_sub(force_y, self.settings.gravity_force);
        }

        force_x =
        fx_sub(
            force_x,
            fx_mul(fx_mul(self.settings.drag_constant, self.velocity_x), fx_abs(self.velocity_x)),
        );
        force_y =
        fx_sub(
            force_y,
            fx_mul(fx_mul(self.settings.drag_constant, self.velocity_y), fx_abs(self.velocity_y)),
        );

        self.velocity_x =
        fx_add(
            self.velocity_x,
            fx_mul(fx_mul(fx_div(force_x, self.settings.weight), dt), self.settings.tick_constant),
        );
        self.velocity_y =
        fx_add(
            self.velocity_y,
            fx_mul(fx_mul(fx_div(force_y, self.settings.weight), dt), self.settings.tick_constant),
        );

        let new_x = fx_add(
            self.absolute_x,
            fx_mul(fx_mul(self.velocity_x, dt), self.settings.tick_constant),
        );
        let new_y = fx_add(
            self.absolute_y,
            fx_mul(fx_mul(self.velocity_y, dt), self.settings.tick_constant),
        );
        (new_x, new_y)
    }

    /// Ends a step: takes the contact flags from what the step ran into,
    /// and moves the player to the proposed position `(new_x, new_y)` or to
    /// where the obstacles stop it.
    pub fn commit(&mut self, new_x: i64, new_y: i64, collisions: Collisions)
        ensures
            final(self)@ == old(self)@.committed(new_x as int, new_y as int, collisions),
    {
        self.grounded = collisions.south.is_some();
        self.on_left_wall = collisions.west.is_some();
        self.on_right_wall = collisions.east.is_some();

        match (collisions.west, new_x <= self.absolute_x, collisions.east, new_x >= self.absolute_x) {
            (Some(w1), _, Some(w2), _) => {
                self.absolute_x = fx_midpoint(w1, w2);
                self.last_movement.set_still();
            },
            (Some(wall), true, None, _) | (None, _, Some(wall), true) => {
                self.absolute_x = wall;
                self.last_movement.set_still();
            },
            (_, _, _, _) => {
                self.absolute_x = new_x;
            },
        }
        match (collisions.south, new_y <= self.absolute_y, collisions.north, new_y >= self.absolute_y) {
            (Some(south_wall), _, Some(_), _) => {
                self.absolute_y = south_wall;
                self.velocity_y = 0;
            },
            (Some(wall), true, None, _) | (None, _, Some(wall), true) => {
                self.absolute_y = wall;
                self.velocity_y = 0;
            },
            (_, _, _, _) => {
                self.absolute_y = new_y;
            },
        }
    }

    /// Advances the player by one simulation step of length `dt` among the
    /// obstacles of `map`.
    pub fn tick(&mut self, dt: i64, map: &LevelMap)
        requires
            old(self).settings.weight != 0,
            map.wf(),
        ensures
            final(self)@ == old(self)@.step(dt as int, map.obstacles()),
    {
        let (new_x, new_y) = self.propose(dt);
        let ghost moving = self@;

        let among_blocks = collides(&*self, new_x, new_y, map.blocks());
        let among_walls = collides(&*self, new_x, new_y, map.boundary_collision_lines());
        let collisions = among_blocks.merge(among_walls);
        proof {
            lemma_resolved_merged(
                moving.bounds(),
                new_x as int,
                new_y as int,
                map@.blocks,
                map@.boundary_lines,
                among_blocks,
                among_walls,
            );
            lemma_resolved_is_resolution(
                moving.bounds(),
                new_x as int,
                new_y as int,
                map.obstacles(),
                collisions,
            );
        }
        self.commit(new_x, new_y, collisions);
    }

    /// Reacts to the jump key going down.
    pub fn jump(&mut self)
        ensures
            final(self)@ == old(self)@.jumped(),
    {
        if self.grounded {
            self.velocity_y = fx_add(self.velocity_y, self.settings.jump_boost);
            self.current_effects.push(
                Effect { time_remaining: self.settings.jump_duration, effect: EffectType::Jumping },
            );
        } else if self.on_left_wall {
            self.velocity_x = fx_add(self.velocity_x, self.settings.wall_boost_x);
            self.velocity_y = fx_add(self.velocity_y, self.settings.wall_boost_y);
            self.last_movement = MovementState::MovingRight;
        } else if self.on_right_wall {
            self.velocity_x = fx_sub(self.velocity_x, self.settings.wall_boost_x);
            self.velocity_y = fx_add(self.velocity_y, self.settings.wall_boost_y);
            self.last_movement = MovementState::MovingLeft;
        }
    }

    /// Takes one event in: a key that the player listens to changes what is
    /// held or makes the player jump, the passing of time makes it move.
    pub fn update(&mut self, event: &Event, map: &LevelMap)
        requires
            *event is Update ==> old(self).settings.weight != 0 && map.wf(),
        ensures
            final(self)@ == old(self)@.handled(*event, map.obstacles()),
    {
        match *event {
            Event::Press(Key::Up) => self.jump(),
            Event::Press(Key::Left) => self.input_left = true,
            Event::Press(Key::Right) => self.input_right = true,
            Event::Release(Key::Left) => self.input_left = false,
            Event::Release(Key::Right) => self.input_right = false,
            Event::Update { dt } => self.tick(dt, map),
            _ => (),
        }
    }
}

impl Default for PlayerState {
    fn default() -> (s: PlayerState)
        ensures
            s@ == PlayerState::at_rest(0, 0),
    {
        PlayerState::new(0, 0)
    }
}

/// While the player is grounded, the lift of a jump does nothing: the
/// effects leave the vertical velocity as it is.
pub proof fn lemma_no_lift_on_the_ground(effects: Seq<Effect>, boost: int, dt: int, v: int)
    ensures
        effects.fold_left(v, lift_step(true, boost, dt)) == v,
    decreases effects.len(),
{
    if effects.len() > 0 {
        lemma_no_lift_on_the_ground(effects.drop_last(), boost, dt, v);
    }
}

/// After a step among valid obstacles the player's position is in range,
/// wherever it was before.
pub proof fn lemma_step_stays_in_range(m: PlayerModel, dt: int, obstacles: Seq<Rect>)
    requires
        valid_obstacles(obstacles),
    ensures
        in_range(m.step(dt, obstacles).x),
        in_range(m.step(dt, obstacles).y),
{
    let moving = m.moving(dt);
    let px = moving.proposed_x(dt);
    let py = moving.proposed_y(dt);
    let c = moving.contact(dt, obstacles);
    lemma_resolution_resolves(moving.bounds(), px, py, obstacles);
    lemma_limits_in_range(moving.bounds(), px, py, obstacles, c);
    if c.west is Some && c.east is Some {
        lemma_midpoint_in_range(c.west->0 as int, c.east->0 as int);
    }
}

/// The mean of two scalars in range is in range.
proof fn lemma_midpoint_in_range(a: int, b: int)
    requires
        in_range(a),
        in_range(b),
    ensures
        in_range(midpoint(a, b)),
{
}

/// Every limit that a player's step finds among valid obstacles is in range.
proof fn lemma_limits_in_range(e: Rect, nx: int, ny: int, s: Seq<Rect>, c: Collisions)
    requires
        0 <= e.len_x <= COORD_MAX,
        0 <= e.len_y <= COORD_MAX,
        valid_obstacles(s),
        resolved(e, nx, ny, s, c),
    ensures
        c.north matches Some(v) ==> in_range(v as int),
        c.south matches Some(v) ==> in_range(v as int),
        c.east matches Some(v) ==> in_range(v as int),
        c.west matches Some(v) ==> in_range(v as int),
{
}

/// The contact flags are those of the step just made: the player is
/// grounded, or on a wall, exactly if that step found a floor, or that wall.
pub proof fn lemma_flags_are_this_steps(m: PlayerModel, dt: int, obstacles: Seq<Rect>)
    ensures
        ({
            let after = m.step(dt, obstacles);
            let c = m.found(dt, obstacles);
            &&& after.grounded == (c.south is Some)
            &&& after.on_left_wall == (c.west is Some)
            &&& after.on_right_wall == (c.east is Some)
        }),
{
}

/// A player that lands stands exactly on its floor. If a step among valid
/// obstacles finds a floor, and the player did not propose to rise (or there
/// is a ceiling as well), then the player ends the step grounded, without
/// vertical velocity, and with its lower edge on the top edge of an obstacle
/// that blocks it from below, the highest such edge: it neither hovers above
/// the floor nor reaches into it.
pub proof fn lemma_landing_is_exact(m: PlayerModel, dt: int, obstacles: Seq<Rect>) -> (floor: int)
    requires
        valid_obstacles(obstacles),
        ({
            let moving = m.moving(dt);
            let c = moving.contact(dt, obstacles);
            c.south is Some && (c.north is Some || moving.proposed_y(dt) <= m.y)
        }),
    ensures
        0 <= floor < obstacles.len(),
        ({
            let moving = m.moving(dt);
            let after = m.step(dt, obstacles);
            &&& blocks(
                Side::South,
                moving.bounds(),
                moving.proposed_x(dt),
                moving.proposed_y(dt),
                obstacles[floor],
            )
            &&& after.y == obstacles[floor].min_y + obstacles[floor].len_y
            &&& forall|i: int|
                0 <= i < obstacles.len() && blocks(
                    Side::South,
                    moving.bounds(),
                    moving.proposed_x(dt),
                    moving.proposed_y(dt),
                    #[trigger] obstacles[i],
                ) ==> obstacles[i].min_y + obstacles[i].len_y <= after.y
            &&& after.grounded
            &&& after.velocity_y == 0
        }),
{
    let moving = m.moving(dt);
    let px = moving.proposed_x(dt);
    let py = moving.proposed_y(dt);
    let c = moving.contact(dt, obstacles);
    lemma_resolution_resolves(moving.bounds(), px, py, obstacles);
    lemma_floor_is_a_top_edge(moving.bounds(), px, py, obstacles, c)
}

/// A player at rest on the ground stays where it is. If the player is
/// grounded, has no vertical velocity, and the step finds the floor at the
/// player's own height, then the step leaves the player at that height,
/// grounded and without vertical velocity.
pub proof fn lemma_resting_player_stays(m: PlayerModel, dt: int, obstacles: Seq<Rect>)
    requires
        m.settings.weight != 0,
        in_range(m.y),
        m.grounded,
        m.velocity_y == 0,
        m.found(dt, obstacles).south == Some(m.y as i64),
    ensures
        m.moving(dt).proposed_y(dt) == m.y,
        m.step(dt, obstacles).y == m.y,
        m.step(dt, obstacles).velocity_y == 0,
        m.step(dt, obstacles).grounded,
{
    let started = m.after_effects(dt);
    lemma_no_lift_on_the_ground(m.effects, m.settings.jump_boost as int, dt, m.velocity_y);
    assert(started.velocity_y == 0);
    lemma_nothing_moves_nothing(m.settings, dt);
}

/// Without a force there is no impulse, and without velocity no travel.
proof fn lemma_nothing_moves_nothing(settings: PlayerSettings, dt: int)
    requires
        settings.weight != 0,
    ensures
        drag(settings.drag_constant as int, 0) == 0,
        impulse(settings, 0, dt) == 0,
        travel(settings, 0, dt) == 0,
{
    let w = settings.weight as int;
    assert(0int / w == 0) by (nonlinear_arith)
        requires
            w != 0,
    ;
    assert(sat_div(0, w) == 0);
    assert(sat_mul(0, dt) == 0);
    assert(sat_mul(0, settings.tick_constant as int) == 0);
    assert(sat_mul(settings.drag_constant as int, 0) == 0);
    assert(sat_abs(0) == 0);
}

/// A player does not fall through a floor that it reaches in a short step.
/// If in this step the player, above an obstacle that it faces, sinks with
/// its lower edge into that obstacle, but not with its upper edge, then the
/// step ends with the player grounded, without vertical velocity, and not
/// below the obstacle's top edge.
pub proof fn lemma_player_lands_on_what_it_reaches(
    m: PlayerModel,
    dt: int,
    obstacles: Seq<Rect>,
    i: int,
)
    requires
        valid_obstacles(obstacles),
        0 <= i < obstacles.len(),
        ({
            let moving = m.moving(dt);
            let px = moving.proposed_x(dt);
            let py = moving.proposed_y(dt);
            &&& faces(Side::South, moving.bounds(), px, py, obstacles[i])
            &&& runs_into(Side::South, moving.bounds(), px, py, obstacles[i])
        }),
    ensures
        m.step(dt, obstacles).y >= obstacles[i].min_y + obstacles[i].len_y,
        m.step(dt, obstacles).grounded,
        m.step(dt, obstacles).velocity_y == 0,
{
    let moving = m.moving(dt);
    let px = moving.proposed_x(dt);
    let py = moving.proposed_y(dt);
    let c = moving.contact(dt, obstacles);
    lemma_resolution_resolves(moving.bounds(), px, py, obstacles);
    lemma_no_tunnelling(Side::South, moving.bounds(), px, py, obstacles, c, i);
}

} // verus!
