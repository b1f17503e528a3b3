//! A ship steered in space: it turns about the vertical axis, rolls about
//! its own long axis, and flies forward or backward at a fixed speed.
//!
//! Turning and rolling need the sine and cosine of an angle, which are not
//! computed here. These functions decide the angles and the speed, and take
//! the direction the ship points in as a vector of length [`UNIT`].

use vstd::prelude::*;
use crate::fixed::{clamp, negated, over_time, plus, scale, scaled, NANOS_PER_SECOND, UNIT};

verus! {

/// Where the ship starts on the depth axis.
pub const STARTING_DEPTH: i64 = -20_000;

/// Speed of the ship.
pub const SPACESHIP_MOVEMENT_SPEED: i64 = 25_000;

/// Angle the ship turns per second.
pub const SPACESHIP_ROTATION_SPEED: i64 = 2_500;

/// Angle the ship rolls per second.
pub const SPACESHIP_ROLL_SPEED: i64 = 2_500;

/// Radius of the ship's collider.
pub const SPACESHIP_RADIUS: i64 = 5_000;

/// Speed of a missile.
pub const MISSILE_SPEED: i64 = 50_000;

/// Distance from the ship's centre at which a missile appears.
pub const MISSILE_FORWARD_SPAWN_SCALAR: i64 = 7_500;

/// Radius of a missile's collider.
pub const MISSILE_RADIUS: i64 = 1_000;

/// A point or a displacement in space.
#[derive(Clone, Copy, Debug, PartialEq, Eq, Structural)]
pub struct Vec3 {
    pub x: i64,
    pub y: i64,
    pub z: i64,
}

impl Vec3 {
    /// The vector `-self * num / UNIT`, each component rounded toward zero
    /// and saturated.
    #[verifier::when_used_as_spec(spec_reversed_times)]
    pub fn reversed_times(self, num: i64) -> (v: Vec3)
        ensures
            v == self.spec_reversed_times(num),
    {
        Vec3 {
            x: negated(scale(self.x, num, UNIT)),
            y: negated(scale(self.y, num, UNIT)),
            z: negated(scale(self.z, num, UNIT)),
        }
    }

    pub open spec fn spec_reversed_times(self, num: i64) -> Vec3 {
        Vec3 {
            x: clamp(-scaled(self.x as int, num as int, UNIT as int)) as i64,
            y: clamp(-scaled(self.y as int, num as int, UNIT as int)) as i64,
            z: clamp(-scaled(self.z as int, num as int, UNIT as int)) as i64,
        }
    }

    /// Component-wise saturating sum.
    #[verifier::when_used_as_spec(spec_sum)]
    pub fn sum(self, other: Vec3) -> (v: Vec3)
        ensures
            v == self.spec_sum(other),
    {
        Vec3 { x: plus(self.x, other.x), y: plus(self.y, other.y), z: plus(self.z, other.z) }
    }

    pub open spec fn spec_sum(self, other: Vec3) -> Vec3 {
        Vec3 {
            x: clamp(self.x + other.x) as i64,
            y: clamp(self.y + other.y) as i64,
            z: clamp(self.z + other.z) as i64,
        }
    }
}

/// Marks the ship.
#[derive(Clone, Copy, Debug, PartialEq, Eq, Structural)]
pub struct Spaceship;

/// Marks a missile fired by the ship.
#[derive(Clone, Copy, Debug, PartialEq, Eq, Structural)]
pub struct SpaceshipMissile;

/// Marks a raised shield.
#[derive(Clone, Copy, Debug, PartialEq, Eq, Structural)]
pub struct SpaceshipShield;

/// The keys that steer the ship, each held or not.
#[derive(Clone, Copy, Debug, PartialEq, Eq, Structural)]
pub struct SpaceshipKeys {
    pub turn_right: bool,
    pub turn_left: bool,
    pub backward: bool,
    pub forward: bool,
    pub roll_right: bool,
    pub roll_left: bool,
    pub fire: bool,
    pub shield: bool,
}

/// What the keys ask of the ship in one frame.
#[derive(Clone, Copy, Debug, PartialEq, Eq, Structural)]
pub struct SpaceshipSteering {
    /// Angle to turn about the vertical axis.
    pub rotation: i64,
    /// Angle to roll about the ship's long axis.
    pub roll: i64,
    /// Signed speed along the ship's direction.
    pub movement: i64,
}

/// A ship or a missile as it is spawned.
#[derive(Clone, Copy, Debug, PartialEq, Eq, Structural)]
pub struct SpaceshipBundle {
    pub translation: Vec3,
    pub velocity: Vec3,
    pub acceleration: Vec3,
    pub radius: i64,
}

/// An angle per second, taken for a frame of `delta_nanos`, with a sign:
/// negative where `negative` is held, else positive where `positive` is
/// held, else zero.
pub open spec fn signed_step(speed: i64, delta_nanos: u64, negative: bool, positive: bool) -> int {
    let step = scaled(speed as int, delta_nanos as int, NANOS_PER_SECOND as int);
    if negative {
        clamp(-step)
    } else if positive {
        step
    } else {
        0
    }
}

fn step(speed: i64, delta_nanos: u64, negative: bool, positive: bool) -> (angle: i64)
    ensures
        angle == signed_step(speed, delta_nanos, negative, positive),
{
    if negative {
        negated(over_time(speed, delta_nanos))
    } else if positive {
        over_time(speed, delta_nanos)
    } else {
        0
    }
}

/// The ship as it is spawned: at rest, twenty units behind the origin.
pub fn spawn_spaceship() -> (bundle: SpaceshipBundle)
    ensures
        bundle == (SpaceshipBundle {
            translation: Vec3 { x: 0, y: 0, z: STARTING_DEPTH },
            velocity: Vec3 { x: 0, y: 0, z: 0 },
            acceleration: Vec3 { x: 0, y: 0, z: 0 },
            radius: SPACESHIP_RADIUS,
        }),
{
    SpaceshipBundle {
        translation: Vec3 { x: 0, y: 0, z: STARTING_DEPTH },
        velocity: Vec3 { x: 0, y: 0, z: 0 },
        acceleration: Vec3 { x: 0, y: 0, z: 0 },
        radius: SPACESHIP_RADIUS,
    }
}

/// Decides the frame's turn, roll and speed from the keys held. On each
/// axis the key named first wins: right over left, backward over forward.
pub fn spaceship_movement_controls(keys: SpaceshipKeys, delta_nanos: u64) -> (steering: SpaceshipSteering)
    ensures
        steering.rotation == signed_step(
            SPACESHIP_ROTATION_SPEED,
            delta_nanos,
            keys.turn_right,
            keys.turn_left,
        ),
        steering.roll == signed_step(SPACESHIP_ROLL_SPEED, delta_nanos, keys.roll_right, keys.roll_left),
        steering.movement == if keys.backward {
            -SPACESHIP_MOVEMENT_SPEED
        } else if keys.forward {
            SPACESHIP_MOVEMENT_SPEED as int
        } else {
            0
        },
{
    let mut movement: i64 = 0;
    if keys.backward {
        movement = -SPACESHIP_MOVEMENT_SPEED;
    } else if keys.forward {
        movement = SPACESHIP_MOVEMENT_SPEED;
    }
    SpaceshipSteering {
        rotation: step(SPACESHIP_ROTATION_SPEED, delta_nanos, keys.turn_right, keys.turn_left),
        roll: step(SPACESHIP_ROLL_SPEED, delta_nanos, keys.roll_right, keys.roll_left),
        movement,
    }
}

/// The ship's velocity once it has turned: `movement` against the direction
/// `forward`.
pub fn spaceship_velocity(forward: Vec3, movement: i64) -> (velocity: Vec3)
    ensures
        velocity == forward.reversed_times(movement),
{
    forward.reversed_times(movement)
}

/// The missile that the ship fires while the fire key is held: it appears
/// [`MISSILE_FORWARD_SPAWN_SCALAR`] from the ship, against the direction
/// `forward`, and flies that way at [`MISSILE_SPEED`].
pub fn spaceship_weapon_controls(fire: bool, translation: Vec3, forward: Vec3) -> (missile: Option<
    SpaceshipBundle,
>)
    ensures
        missile == if fire {
            Some(
                SpaceshipBundle {
                    translation: translation.sum(forward.reversed_times(MISSILE_FORWARD_SPAWN_SCALAR)),
                    velocity: forward.reversed_times(MISSILE_SPEED),
                    acceleration: Vec3 { x: 0, y: 0, z: 0 },
                    radius: MISSILE_RADIUS,
                },
            )
        } else {
            None
        },
{
    if fire {
        Some(
            SpaceshipBundle {
                translation: translation.sum(forward.reversed_times(MISSILE_FORWARD_SPAWN_SCALAR)),
                velocity: forward.reversed_times(MISSILE_SPEED),
                acceleration: Vec3 { x: 0, y: 0, z: 0 },
                radius: MISSILE_RADIUS,
            },
        )
    } else {
        None
    }
}

/// The shield that is raised while the shield key is held.
pub fn spaceship_shield_controls(shield: bool) -> (raised: Option<SpaceshipShield>)
    ensures
        raised == if shield {
            Some(SpaceshipShield)
        } else {
            None
        },
{
    if shield {
        Some(SpaceshipShield)
    } else {
        None
    }
}

} // verus!
