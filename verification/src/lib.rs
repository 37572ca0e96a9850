//! Simulation core of a side-scrolling reflex game: a player-controlled body
//! under gravity, a fixed pool of recycled obstacles, throttled axis-aligned
//! bounding-box collision detection, ordered score accrual, and a two-state
//! (Playing / GameOver) lifecycle that gates every gameplay phase.
//!
//! All quantities are fixed-point integers:
//! positions, offsets and sizes are in microunits (1 unit = 1_000_000),
//! velocities in milliunits per second, accelerations in units per second
//! squared, times in milliseconds, and angles in nanoradians. With these
//! scales one Euler integration step is exact integer arithmetic:
//! `velocity (milli) += acceleration (units) * dt (ms)` and
//! `position (micro) += velocity (milli) * dt (ms)`.
use vstd::prelude::*;

pub mod collision;
pub mod entities;
pub mod geom;
pub mod input;
pub mod motion;
pub mod recycle;
pub mod scheduler;
pub mod scoring;
pub mod spawn;
pub mod world;

verus! {

/// Vertical speed, in milliunits per second, that a held jump input forces
/// (500 units per second, upward).
pub const UP_SPEED: i64 = 500_000;

/// The player's constant downward acceleration, in units per second squared.
pub const GRAVITY: i64 = -2000;

/// Rotation, in nanoradians, per milliunit-per-second of vertical velocity:
/// an angle amplitude of 0.8 rad spread over the full jump speed.
pub const ANGLE_SLOPE: i64 = 1600;

/// pi/2 in nanoradians: the bound of the derived facing angle.
pub const HALF_PI_NANORAD: i64 = 1_570_796_327;

/// Height of the opening between the two pipes of an obstacle, microunits.
pub const PIPE_WINDOW_SIZE: i64 = 250_000_000;

/// Initial leftward speed of every obstacle, milliunits per second.
pub const PIPE_START_SPEED: i64 = 100_000;

/// Target maximum leftward speed of an obstacle, milliunits per second:
/// the speed ramp ends here and never passes it.
pub const PIPE_MAX_SPEED: i64 = 1_000_000;

/// Horizontal acceleration of obstacles while the ramp lasts, units per
/// second squared: it takes the leftward speed from 100 to the 1000
/// units/s target over 60 seconds, and ceases at the target.
pub const PIPE_ACCELERATION: i64 = -15;

/// Horizontal spacing between consecutive obstacles, microunits.
pub const PIPE_GAP: i64 = 500_000_000;

/// Number of obstacle units in the pool, fixed at startup.
pub const PIPE_COUNT: usize = 10;

/// Margin beyond the half window width for the field borders, microunits.
pub const BORDER_MARGIN: i64 = 100_000_000;

/// Height of a pipe-start sprite, microunits; fixes the collider layout.
pub const PIPE_START_HEIGHT: i64 = 192_000_000;

/// Height of a pipe-piece sprite, microunits; fixes the collider layout.
pub const PIPE_SEGMENT_HEIGHT: i64 = 96_000_000;

/// Vertical offset of each pipe start from its obstacle's centre, microunits:
/// half of the pipe-start height plus half of the window between the pipes.
pub const PIPE_START_OFFSET: i64 = 221_000_000;

/// Half the height of a pipe-piece sprite, microunits.
pub const PIPE_SEGMENT_HALF: i64 = 48_000_000;

/// Number of collider segments per pipe start (one column of pieces).
pub const PIPE_SEGMENT_COUNT: usize = 10;

/// Collider segments per obstacle: two pipe starts, each with its column
/// of pieces.
pub const SEGMENTS_PER_OBSTACLE: usize = 2 * PIPE_SEGMENT_COUNT + 2;

/// Accumulated elapsed time, in milliseconds, after which collision
/// detection starts running.
pub const COLLISION_PERIOD: u64 = 1000;

/// Range of the random vertical placement of an obstacle, microunits.
pub const HEIGHT_RANGE: u64 = 1_000_000;

/// Bound on the magnitude of every coordinate, velocity and acceleration the
/// simulation holds, chosen so that one integration step fits in an i64.
pub const COORD_LIMIT: i64 = 1_000_000_000_000;

/// Largest time step, in milliseconds, a single tick accepts (one hour).
pub const DT_LIMIT: u64 = 3_600_000;

/// Conservative runtime margin on positions (microunits) under which a
/// tick is known to stay within the machine limits.
pub const SAFE_POS: i64 = 100_000_000_000;

/// Conservative runtime margin on velocities (milliunits per second).
pub const SAFE_VEL: i64 = 500_000_000;

/// Conservative runtime margin on accelerations (units per second squared).
pub const SAFE_ACC: i64 = 10_000;

/// Largest time step (milliseconds) the conservative margins cover.
pub const SAFE_DT: u64 = 1000;

} // verus!
