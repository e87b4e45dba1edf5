//! Component records attached to entities, the configuration constants,
//! and the per-slot well-formedness condition.
//!
//! Distances are in micro-units (1 world unit = 1_000_000 micro-units),
//! times in microseconds, speeds in micro-units per second. All state is
//! plain integers, so every system is exact.

use vstd::prelude::*;

verus! {

/// Micro-units (or microseconds) per world unit (or second).
pub const MICROS_PER_SEC: i64 = 1_000_000;

/// Player movement speed, micro-units per second (175 units/s).
pub const PLAYER_SPEED: i64 = 175_000_000;

/// Player health at startup.
pub const PLAYER_HEALTH: i64 = 100;

/// Seconds between shots, as microseconds (0.5 s).
pub const ATTACK_PERIOD_US: i64 = 500_000;

/// Seconds between enemy spawns, as microseconds (2.0 s).
pub const SPAWN_PERIOD_US: i64 = 2_000_000;

/// Enemy health at spawn.
pub const ENEMY_HEALTH: i64 = 10;

/// Damage an enemy deals to the player per tick of contact.
pub const ENEMY_DAMAGE: i64 = 10;

/// Projectile speed, micro-units per second (400 units/s).
pub const FIREBALL_SPEED: i64 = 400_000_000;

/// Damage a projectile deals to the enemy it hits.
pub const FIREBALL_DAMAGE: i64 = 10;

/// Distance under which two entities are in contact (40 units).
pub const HIT_RADIUS: i64 = 40_000_000;

/// Upper clamp on the player's y position (140 units).
pub const Y_TOP: i64 = 140_000_000;

/// Enemy spawn x range, inclusive lower bound (-540 units).
pub const SPAWN_X_MIN: i64 = -540_000_000;

/// Enemy spawn x range, exclusive upper bound (+540 units).
pub const SPAWN_X_MAX: i64 = 540_000_000;

/// Enemy spawn y range, inclusive lower bound (-260 units).
pub const SPAWN_Y_MIN: i64 = -260_000_000;

/// Enemy spawn y range, exclusive upper bound (+100 units).
pub const SPAWN_Y_MAX: i64 = 100_000_000;

/// Largest time step a tick may advance by (0.25 s); larger deltas are
/// clamped at the driver boundary, negative ones clamped to zero.
pub const DT_MAX_US: i64 = 250_000;

/// Upper bound on any speed field, micro-units per second. Keeps
/// `speed * dt` far from overflow; a million units per second is far
/// beyond anything the game configures.
pub const SPEED_LIMIT: i64 = 2_000_000_000_000;

/// Numerator of the rational approximation of 1/sqrt(2) used for
/// diagonal movement. 665_857^2 - 2 * 470_832^2 == 1, so the diagonal
/// step never exceeds the straight step's contribution to speed.
pub const INV_SQRT2_NUM: i64 = 470_832;

/// Denominator of the rational approximation of 1/sqrt(2).
pub const INV_SQRT2_DEN: i64 = 665_857;

/// Logical window width in micro-units (1280 units).
pub const WINDOW_W: i64 = 1_280_000_000;

/// Logical window height in micro-units (720 units).
pub const WINDOW_H: i64 = 720_000_000;

/// Player sprite width in micro-units (86 units).
pub const PLAYER_W: i64 = 86_000_000;

/// Player sprite height in micro-units (120 units).
pub const PLAYER_H: i64 = 120_000_000;

/// Enemy sprite side in micro-units (100 units).
pub const ENEMY_W: i64 = 100_000_000;

/// Projectile sprite width in micro-units (75 units).
pub const FIREBALL_W: i64 = 75_000_000;

/// Projectile sprite height in micro-units (32.5 units).
pub const FIREBALL_H: i64 = 32_500_000;

/// World-space placement: position in micro-units.
#[derive(Clone, Copy, PartialEq, Eq, Structural, Debug)]
pub struct Transform {
    pub x: i64,
    pub y: i64,
}

/// Which texture a sprite is drawn with.
#[derive(Clone, Copy, PartialEq, Eq, Structural, Debug)]
pub enum TextureKey {
    Wastelands,
    BlackMage,
    Cactuar,
    FireballTex,
}

/// Rendering hint: sprite size in micro-units and texture key. Opaque to
/// the simulation.
#[derive(Clone, Copy, PartialEq, Eq, Structural, Debug)]
pub struct Sprite {
    pub w: i64,
    pub h: i64,
    pub texture: TextureKey,
}

/// The player-controlled character. At most one live entity carries it.
#[derive(Clone, Copy, PartialEq, Eq, Structural, Debug)]
pub struct Player {
    /// Movement speed in micro-units per second.
    pub speed: i64,
    pub health: i64,
    /// Orientation: `true` is Left, `false` is Right.
    pub facing_left: bool,
}

/// A spawned enemy.
#[derive(Clone, Copy, PartialEq, Eq, Structural, Debug)]
pub struct Enemy {
    pub health: i64,
    /// Contact damage dealt to the player per tick of overlap.
    pub damage: i64,
}

/// A projectile in flight. Its facing is set at spawn from the player's
/// facing and never changes afterwards.
#[derive(Clone, Copy, PartialEq, Eq, Structural, Debug)]
pub struct Fireball {
    /// Speed along the x axis in micro-units per second.
    pub speed: i64,
    pub damage: i64,
    /// Direction of travel: `true` is Left (-x), `false` is Right (+x).
    pub facing_left: bool,
}

/// Time gate on the player's attacks: `remaining_us` counts down to zero
/// and is reset to `period_us` on each shot.
#[derive(Clone, Copy, PartialEq, Eq, Structural, Debug)]
pub struct AttackCooldown {
    pub remaining_us: i64,
    pub period_us: i64,
}

/// One entry of the entity registry: an entity identifier is an index
/// into the registry, and the entry holds the entity's components.
/// Despawned entries stay in place with `alive` false, so identifiers
/// are never reused.
#[derive(Clone, Copy, PartialEq, Eq, Structural, Debug)]
pub struct Slot {
    pub alive: bool,
    pub transform: Option<Transform>,
    pub sprite: Option<Sprite>,
    pub player: Option<Player>,
    pub enemy: Option<Enemy>,
    pub fireball: Option<Fireball>,
    pub cooldown: Option<AttackCooldown>,
}

/// Per-slot well-formedness: speed fields are bounded so per-tick steps
/// cannot overflow, a cooldown's remaining time lies in [0, period] with
/// the configured period, and no entity is both an enemy and the player.
pub open spec fn slot_ok(s: Slot) -> bool {
    &&& s.player is Some ==> {
        &&& 0 <= s.player.unwrap().speed <= SPEED_LIMIT
        &&& s.enemy is None
    }
    &&& s.fireball is Some ==> 0 <= s.fireball.unwrap().speed <= SPEED_LIMIT
    &&& s.cooldown is Some ==> {
        &&& 0 <= s.cooldown.unwrap().remaining_us
        &&& s.cooldown.unwrap().remaining_us <= s.cooldown.unwrap().period_us
        &&& s.cooldown.unwrap().period_us == ATTACK_PERIOD_US
    }
}

/// A slot is a live player entity.
pub open spec fn is_live_player(s: Slot) -> bool {
    s.alive && s.player is Some
}

/// A slot is a live enemy entity.
pub open spec fn is_live_enemy(s: Slot) -> bool {
    s.alive && s.enemy is Some
}

/// A slot is a live projectile entity.
pub open spec fn is_live_fireball(s: Slot) -> bool {
    s.alive && s.fireball is Some
}

} // verus!
