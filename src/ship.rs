use vstd::prelude::*;
use crate::key::AccountKey;

verus! {

// Lengths, angles (in degrees), health, damage and hit chance are all held in
// thousandths: a value `v` stands for `v / SCALE`.

/// The number of stored units in one unit of any game quantity.
pub const SCALE: i64 = 1000;

/// Half the width of the arena: a ship whose |x| exceeds it is destroyed.
pub const ARENA_HALF_WIDTH: i64 = 42_000;

/// Half the height of the arena: a ship whose |y| exceeds it is destroyed.
pub const ARENA_HALF_HEIGHT: i64 = 73_000;

/// Health of a fresh ship.
pub const START_HEALTH: i64 = 100_000;
/// Speed limits of a fresh ship.
pub const START_MIN_SPEED: i64 = 10_000;
pub const START_MAX_SPEED: i64 = 20_000;
/// Turn-angle limits of a fresh ship.
pub const START_MIN_ANGLE: i64 = 0;
pub const START_MAX_ANGLE: i64 = 90_000;
/// Weapon of a fresh ship.
pub const START_ARC: i64 = 45_000;
pub const START_RANGE: i64 = 30_000;
pub const START_DAMAGE: i64 = 40_000;
pub const START_HIT_CHANCE: i64 = 700;

/// A ship's intended movement for the coming maneuver: a turn angle and a speed.
/// An angle of zero means a straight move.
#[derive(Clone, Copy, Debug, PartialEq, Eq, Structural)]
pub struct ManeuverData {
    pub angle: i64,
    pub speed: i64,
}

/// A ship's weapon: half-angle of its firing arc, its range, its damage and its
/// chance to hit.
#[derive(Clone, Copy, Debug, PartialEq, Eq, Structural)]
pub struct WeaponData {
    pub arc: i64,
    pub range: i64,
    pub damage: i64,
    pub hit_chance: i64,
}

/// Where a ship stands and where it points.
#[derive(Clone, Copy, Debug, PartialEq, Eq, Structural)]
pub struct Pose {
    pub x_position: i64,
    pub y_position: i64,
    pub rotation: i64,
}

/// One ship of a session.
#[derive(Clone, Copy, Debug, PartialEq, Eq, Structural)]
pub struct Ship {
    pub id: u32,
    pub owner: AccountKey,
    pub x_position: i64,
    pub y_position: i64,
    pub rotation: i64,
    pub health: i64,
    pub min_speed: i64,
    pub max_speed: i64,
    pub min_angle: i64,
    pub max_angle: i64,
    pub maneuver_data: ManeuverData,
    pub weapon_data: WeaponData,
    pub activated: bool,
}

/// An obstacle on the map: its position and size (in thousandths) and its health.
#[derive(Clone, Copy, Debug, PartialEq, Eq, Structural)]
pub struct Obstacle {
    pub id: u32,
    pub x_position: i64,
    pub y_position: i64,
    pub size: i64,
    pub health: u32,
}

/// Whether a position lies outside the arena.
pub open spec fn out_of_arena(x: i64, y: i64) -> bool {
    x < -ARENA_HALF_WIDTH || x > ARENA_HALF_WIDTH || y < -ARENA_HALF_HEIGHT || y > ARENA_HALF_HEIGHT
}

/// `v` held within the bounds of `i64`.
pub open spec fn clamp_i64(v: int) -> i64 {
    if v > i64::MAX {
        i64::MAX
    } else if v < i64::MIN {
        i64::MIN
    } else {
        v as i64
    }
}

/// Adds two values, stopping at the bounds of `i64`.
pub fn bounded_add(a: i64, b: i64) -> (r: i64)
    ensures
        r == clamp_i64(a + b),
{
    match a.checked_add(b) {
        Some(v) => v,
        None => if b > 0 {
            i64::MAX
        } else {
            i64::MIN
        },
    }
}

/// Subtracts `b` from `a`, stopping at the bounds of `i64`.
pub fn bounded_sub(a: i64, b: i64) -> (r: i64)
    ensures
        r == clamp_i64(a - b),
{
    let d: i128 = a as i128 - b as i128;
    if d > i64::MAX as i128 {
        i64::MAX
    } else if d < i64::MIN as i128 {
        i64::MIN
    } else {
        d as i64
    }
}

impl Ship {
    /// A fresh ship of the starting fleet, at full health and without intent.
    pub fn new(id: u32, owner: AccountKey, x_position: i64, y_position: i64, rotation: i64) -> (r: Ship)
        ensures
            r == starting_ship(id, owner, x_position, y_position, rotation),
    {
        Ship {
            id,
            owner,
            x_position,
            y_position,
            rotation,
            health: START_HEALTH,
            min_speed: START_MIN_SPEED,
            max_speed: START_MAX_SPEED,
            min_angle: START_MIN_ANGLE,
            max_angle: START_MAX_ANGLE,
            maneuver_data: ManeuverData { angle: 0, speed: 0 },
            weapon_data: WeaponData {
                arc: START_ARC,
                range: START_RANGE,
                damage: START_DAMAGE,
                hit_chance: START_HIT_CHANCE,
            },
            activated: false,
        }
    }

    /// Whether the ship still has health left.
    pub fn is_alive(&self) -> (r: bool)
        ensures
            r == (self.health > 0),
    {
        self.health > 0
    }

    /// The ship moved to `pose`; destroyed (health exactly zero) when the pose is
    /// outside the arena.
    pub fn moved_to(&self, pose: Pose) -> (r: Ship)
        ensures
            r == moved_ship(*self, pose),
    {
        let mut s = *self;
        s.x_position = pose.x_position;
        s.y_position = pose.y_position;
        s.rotation = pose.rotation;
        if pose.x_position < -ARENA_HALF_WIDTH || pose.x_position > ARENA_HALF_WIDTH
            || pose.y_position < -ARENA_HALF_HEIGHT || pose.y_position > ARENA_HALF_HEIGHT {
            s.health = 0;
        }
        s
    }
}

/// A ship of the starting fleet.
pub open spec fn starting_ship(id: u32, owner: AccountKey, x: i64, y: i64, rotation: i64) -> Ship {
    Ship {
        id,
        owner,
        x_position: x,
        y_position: y,
        rotation,
        health: START_HEALTH,
        min_speed: START_MIN_SPEED,
        max_speed: START_MAX_SPEED,
        min_angle: START_MIN_ANGLE,
        max_angle: START_MAX_ANGLE,
        maneuver_data: ManeuverData { angle: 0, speed: 0 },
        weapon_data: WeaponData { arc: START_ARC, range: START_RANGE, damage: START_DAMAGE, hit_chance: START_HIT_CHANCE },
        activated: false,
    }
}

/// A ship after a maneuver has brought it to `pose`.
pub open spec fn moved_ship(s: Ship, pose: Pose) -> Ship {
    Ship {
        x_position: pose.x_position,
        y_position: pose.y_position,
        rotation: pose.rotation,
        health: if out_of_arena(pose.x_position, pose.y_position) { 0 } else { s.health },
        ..s
    }
}

} // verus!
