//! A single-missile orbital arcade level in fixed-point integer arithmetic:
//! gravity between bodies, the missile's oriented-box collision test and the
//! win/fail state machine of a level.
//!
//! Units: lengths are thousandths of a world unit, velocities thousandths of a
//! unit per second, time is microseconds, masses are whole mass units, and a
//! heading is a direction vector of length `HEADING_UNIT`.

use vstd::prelude::*;

pub mod body;
pub mod collision;
pub mod engine;
pub mod entity;
pub mod level;
pub mod load_level;
pub mod numeric;
pub mod vector;

verus! {

/// Thousandths in one world unit.
pub const SUBUNITS: i64 = 1_000;

/// Microseconds in one second.
pub const MICROS_PER_SECOND: i64 = 1_000_000;

/// Length of a heading vector.
pub const HEADING_UNIT: i64 = 1_000_000;

// Missile
pub const MISSILE_WIDTH: i64 = 86_000;

pub const MISSILE_HEIGHT: i64 = 8_000;

/// Half extents of the missile's box, along and across its heading.
pub const MISSILE_HALF_WIDTH: i64 = 43_000;

pub const MISSILE_HALF_HEIGHT: i64 = 4_000;

pub const MISSILE_MASS: i64 = 100_000;

pub const MISSILE_THRUST: i64 = 1_200_000_000_000;

pub const INITIAL_SPEED: i64 = 10_000;

// UFO
pub const UFO_RADIUS: i64 = 40_000;

pub const UFO_MASS: i64 = 100;

// Asteroids and planets: mass per square world unit of disc area.
pub const ASTEROID_DENSITY: i64 = 100;

pub const PLANET_DENSITY: i64 = 120_000_000_000;

/// Pi as the ratio `PI_NUMERATOR / PI_DENOMINATOR`.
pub const PI_NUMERATOR: i64 = 3_141_592_653;

pub const PI_DENOMINATOR: i64 = 1_000_000_000;

// Game settings
pub const WINDOW_WIDTH: i64 = 2_300_000;

pub const WINDOW_HEIGHT: i64 = 1_200_000;

pub const FPS: u32 = 60;

/// One physics step in microseconds, a sixtieth of a second.
pub const DT: i64 = 16_667;

/// The gravitational constant in this crate's units, as the ratio
/// `G_NUMERATOR / G_DENOMINATOR`. In this universe gravity is ten times
/// stronger than in ours.
pub const G_NUMERATOR: i64 = 66_743;

pub const G_DENOMINATOR: i64 = 10_000;

/// Squared distances below this are treated as this: two bodies never pull
/// on each other as if they were closer than one world unit.
pub const MIN_DISTANCE_SQUARED: i64 = 1_000_000;

/// A body whose squared speed does not exceed this keeps its heading.
pub const STATIONARY_SPEED_SQUARED: i64 = 10_000;

// Limits of the fixed-point model.
pub const POSITION_MAX: i64 = 1_000_000_000_000;

pub const VELOCITY_MAX: i64 = 1_000_000_000_000;

pub const FORCE_MAX: i64 = 1_000_000_000_000_000_000;

pub const MASS_MAX: i64 = 1_000_000_000_000_000_000;

pub const RADIUS_MAX: i64 = 100_000_000;

} // verus!
