//! Frame-by-frame simulation of a side-scrolling flapping-bird game.
//!
//! All quantities are integers in fixed units so that every step is exact:
//! time is counted in microseconds, lengths in `UNITS` per world unit
//! (one sprite pixel before scaling), and velocities in `SPEED_UNITS` per
//! world unit per second. With these units `velocity * microseconds` is a
//! length and `GRAVITY * microseconds` is a velocity.

pub mod units;
pub mod random;
pub mod obstacle;
pub mod bird;
pub mod level;
