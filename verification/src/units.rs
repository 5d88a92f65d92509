//! Units and elementary arithmetic shared by the whole controller.
//!
//! The controller works on integers so that every tolerance comparison is
//! exact: a position is a count of thousandths of a floor (floor `k` sits at
//! position `k * FLOOR_SCALE`), a velocity a count of thousandths of a floor
//! per second, and a duration a count of milliseconds.

use vstd::prelude::*;

verus! {

/// Position in thousandths of a floor; floor `k` is at position `k * FLOOR_SCALE`.
pub type Position = i64;

/// Velocity in thousandths of a floor per second, signed.
pub type Velocity = i64;

/// Signed integer index of an addressable floor.
pub type Floor = i64;

/// Number of position units to one floor.
pub const FLOOR_SCALE: i64 = 1000;

/// Largest floor index magnitude the controller accepts.
pub const MAX_ABS_FLOOR: i64 = 1_000_000;

/// Largest position magnitude the controller accepts, `MAX_ABS_FLOOR * FLOOR_SCALE`.
pub const MAX_ABS_POSITION: i64 = 1_000_000_000;

/// Largest velocity magnitude the controller accepts.
pub const MAX_ABS_VELOCITY: i64 = 1_000_000_000;

/// Largest tick duration, in milliseconds, the controller accepts.
pub const MAX_TICK_MILLIS: i64 = 1_000_000;

/// Largest average per-stop penalty, in milliseconds, the estimator accepts.
pub const MAX_STOP_MILLIS: i64 = 1_000_000;

/// Largest number of entries in a requested-floor list the estimator accepts.
pub const MAX_FLOOR_COUNT: usize = 1_000_000;

/// The floor index whose position is nearest to `position`, halves rounded
/// away from zero.
pub open spec fn spec_round_to_floor(position: int) -> int {
    if position >= 0 {
        (position + FLOOR_SCALE / 2) / (FLOOR_SCALE as int)
    } else {
        -((-position + FLOOR_SCALE / 2) / (FLOOR_SCALE as int))
    }
}

/// Absolute value of a machine integer.
pub fn abs_i64(x: i64) -> (r: i64)
    requires
        x != i64::MIN,
    ensures
        r == vstd::math::abs(x as int),
{
    if x >= 0 {
        x
    } else {
        -x
    }
}

/// The floor index nearest to `position`.
pub fn round_to_floor(position: Position) -> (floor: Floor)
    requires
        -MAX_ABS_POSITION <= position <= MAX_ABS_POSITION,
    ensures
        floor == spec_round_to_floor(position as int),
        -MAX_ABS_FLOOR <= floor <= MAX_ABS_FLOOR,
{
    if position >= 0 {
        (position + FLOOR_SCALE / 2) / FLOOR_SCALE
    } else {
        -((-position + FLOOR_SCALE / 2) / FLOOR_SCALE)
    }
}

} // verus!
