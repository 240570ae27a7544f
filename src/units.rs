use vstd::prelude::*;

verus! {

/// Length units per world unit.
pub const UNITS: i64 = 1_000_000_000_000;

/// Velocity units per world unit per second.
pub const SPEED_UNITS: i64 = 1_000_000;

/// Rotation units per unit of rotation angle.
pub const ROTATION_UNITS: i64 = 1_000_000;

/// Uniform scale applied to every sprite.
pub const PIXEL_RATIO: i64 = 4;

/// Downward acceleration in world units per second squared; as a number it is
/// also the velocity units lost per microsecond.
pub const GRAVITY: i64 = 2000;

/// Velocity (in world units per second) that corresponds to one unit of
/// rotation. Since `SPEED_UNITS == ROTATION_UNITS`, a velocity divided by it
/// is directly a rotation in rotation units.
pub const BIRD_ROTATION_RATIO: i64 = 500;

/// The largest rotation magnitude, in rotation units.
pub const BIRD_ROTATION_LIMIT: i64 = 90 * ROTATION_UNITS;

/// Velocity set by a flap.
pub const BIRD_FLAP_VELOCITY: i64 = 500 * SPEED_UNITS;

/// Number of obstacle pairs in a level.
pub const OBSTACLE_AMOUNT: i64 = 10;

/// Leftward scroll speed of every obstacle.
pub const OBSTACLE_SPEED: i64 = 150 * SPEED_UNITS;

/// Width of the obstacle sprite, unscaled.
pub const OBSTACLE_WIDTH: i64 = 32 * UNITS;

/// Bound of the random vertical offset of a pair, unscaled.
pub const OBSTACLE_RANDOM_VERTICAL_OFFSET: i64 = 30 * UNITS;

/// Extra room between a pipe's end and the middle of the gap, unscaled.
pub const OBSTACLE_GAP_SIZE: i64 = 15 * UNITS;

/// Horizontal distance between neighbouring pairs, unscaled.
pub const OBSTACLE_SPACING: i64 = 60 * UNITS;

/// Height of the obstacle sprite, unscaled.
pub const OBSTACLE_IMAGE_HEIGHT: i64 = 144 * UNITS;

/// Half the scaled obstacle width (`OBSTACLE_WIDTH * PIXEL_RATIO / 2`): the
/// horizontal reach of a collision.
pub const OBSTACLE_HALF_WIDTH: i64 = 64 * UNITS;

/// Half the scaled obstacle height (`OBSTACLE_IMAGE_HEIGHT * PIXEL_RATIO / 2`):
/// the vertical reach of a collision.
pub const OBSTACLE_HALF_HEIGHT: i64 = 288 * UNITS;

/// Scaled horizontal distance between neighbouring pairs.
pub const OBSTACLE_STRIDE: i64 = OBSTACLE_SPACING * PIXEL_RATIO;

/// How far a recycled obstacle moves right: the length of the whole field.
pub const OBSTACLE_FIELD_LENGTH: i64 = OBSTACLE_AMOUNT * OBSTACLE_STRIDE;

/// Scaled bound of the random vertical offset of a pair.
pub const OBSTACLE_OFFSET_BOUND: i64 = OBSTACLE_RANDOM_VERTICAL_OFFSET * PIXEL_RATIO;

/// Largest coordinate magnitude the simulation accepts.
pub const MAX_COORD: i64 = 1_000_000 * UNITS;

/// Largest velocity magnitude the simulation accepts.
pub const MAX_SPEED: i64 = 1_000_000 * SPEED_UNITS;

/// Largest window dimension the simulation accepts.
pub const MAX_WINDOW: u64 = 100_000_000_000_000_000;

/// Longest frame the simulation accepts, in microseconds.
pub const MAX_FRAME_MICROS: u64 = 1_000_000;

/// A point in the plane, in length units.
#[derive(Clone, Copy, Debug, PartialEq, Eq, Structural)]
pub struct Position {
    pub x: i64,
    pub y: i64,
}

/// Absolute value over the integers.
pub open spec fn abs(a: int) -> int {
    if a < 0 {
        -a
    } else {
        a
    }
}

/// `v` limited to the closed range `[lo, hi]`.
pub open spec fn clamp(v: int, lo: int, hi: int) -> int {
    if v < lo {
        lo
    } else if v > hi {
        hi
    } else {
        v
    }
}

/// A coordinate inside the simulated range.
pub open spec fn coord_in_range(c: int) -> bool {
    -MAX_COORD <= c <= MAX_COORD
}

/// Both coordinates of `p` inside the simulated range.
pub open spec fn position_in_range(p: Position) -> bool {
    coord_in_range(p.x as int) && coord_in_range(p.y as int)
}

/// A window dimension the simulation accepts.
pub open spec fn window_dimension_ok(d: int) -> bool {
    0 <= d <= MAX_WINDOW
}

} // verus!
