//! The directional time-to-arrival estimator: a read-only query, not part of
//! the per-tick decision.

use vstd::prelude::*;

use crate::controller::Direction;
use crate::controller::LiftController;
use crate::controller::LiftSensors;
use crate::units::FLOOR_SCALE;
use crate::units::Floor;
use crate::units::MAX_ABS_FLOOR;
use crate::units::MAX_ABS_POSITION;
use crate::units::MAX_ABS_VELOCITY;
use crate::units::MAX_FLOOR_COUNT;
use crate::units::MAX_STOP_MILLIS;
use crate::units::abs_i64;

verus! {

/// How many entries of `floors` lie strictly between the positions `low` and
/// `high`, each entry counted as often as it occurs.
pub open spec fn spec_count_between(floors: Seq<i64>, low: int, high: int) -> int
    decreases floors.len(),
{
    if floors.len() == 0 {
        0
    } else {
        spec_count_between(floors.drop_last(), low, high) + if low < FLOOR_SCALE * floors.last()
            && FLOOR_SCALE * floors.last() < high {
            1int
        } else {
            0int
        }
    }
}

/// The largest entry of `floors`, or zero on an empty list.
pub open spec fn spec_highest_or_zero(floors: Seq<i64>) -> i64
    decreases floors.len(),
{
    if floors.len() == 0 {
        0
    } else if floors.len() == 1 {
        floors.last()
    } else {
        let rest = spec_highest_or_zero(floors.drop_last());
        if floors.last() > rest {
            floors.last()
        } else {
            rest
        }
    }
}

/// The smallest entry of `floors`, or zero on an empty list.
pub open spec fn spec_lowest_or_zero(floors: Seq<i64>) -> i64
    decreases floors.len(),
{
    if floors.len() == 0 {
        0
    } else if floors.len() == 1 {
        floors.last()
    } else {
        let rest = spec_lowest_or_zero(floors.drop_last());
        if floors.last() < rest {
            floors.last()
        } else {
            rest
        }
    }
}

/// Milliseconds a car moving at `speed` needs for the signed distance
/// `distance`, truncated toward zero; negative for a negative distance.
pub open spec fn spec_travel_millis(distance: int, speed: int) -> int {
    if distance >= 0 {
        distance * FLOOR_SCALE / speed
    } else {
        -((-distance) * FLOOR_SCALE / speed)
    }
}

/// The estimated milliseconds until arrival at `target`, for a car that is
/// actually moving with an established direction. Four path shapes: direct
/// travel ahead of the direction, or travel to the far extreme of the
/// requested floors and back; each intermediate requested floor on the
/// physical path costs `average_stop_millis` on top of the geometric distance
/// at the current speed.
pub open spec fn spec_time_to_floor(
    direction: Direction,
    position: int,
    speed: int,
    floors: Seq<i64>,
    target: int,
    average_stop_millis: int,
) -> int {
    let target_position = FLOOR_SCALE * target;
    let highest = FLOOR_SCALE * spec_highest_or_zero(floors);
    let lowest = FLOOR_SCALE * spec_lowest_or_zero(floors);
    if direction == Direction::Up && target_position > position {
        spec_count_between(floors, position, target_position) * average_stop_millis
            + spec_travel_millis(target_position - position, speed)
    } else if direction == Direction::Up {
        (spec_count_between(floors, position, highest) + spec_count_between(
            floors,
            target_position,
            position,
        )) * average_stop_millis + spec_travel_millis(
            highest - position + highest - target_position,
            speed,
        )
    } else if direction == Direction::Down && target_position > position {
        (spec_count_between(floors, position, target_position) + spec_count_between(
            floors,
            lowest,
            position,
        )) * average_stop_millis + spec_travel_millis(
            position - lowest + target_position - lowest,
            speed,
        )
    } else {
        spec_count_between(floors, target_position, position) * average_stop_millis
            + spec_travel_millis(position - target_position, speed)
    }
}

/// The count of entries strictly between two positions never exceeds the
/// length of the list and is never negative.
pub proof fn lemma_count_between_bounds(floors: Seq<i64>, low: int, high: int)
    ensures
        0 <= spec_count_between(floors, low, high) <= floors.len(),
    decreases floors.len(),
{
    if floors.len() > 0 {
        lemma_count_between_bounds(floors.drop_last(), low, high);
    }
}

/// The extremes of a bounded list are bounded the same way, or zero.
pub proof fn lemma_extremes_bounded(floors: Seq<i64>)
    requires
        forall|i: int|
            0 <= i < floors.len() ==> -MAX_ABS_FLOOR <= #[trigger] floors[i] && floors[i]
                <= MAX_ABS_FLOOR,
    ensures
        -MAX_ABS_FLOOR <= spec_highest_or_zero(floors) <= MAX_ABS_FLOOR,
        -MAX_ABS_FLOOR <= spec_lowest_or_zero(floors) <= MAX_ABS_FLOOR,
    decreases floors.len(),
{
    if floors.len() > 0 {
        assert(floors[floors.len() - 1] == floors.last());
        assert forall|i: int|
            0 <= i < floors.drop_last().len() implies -MAX_ABS_FLOOR
            <= #[trigger] floors.drop_last()[i] && floors.drop_last()[i] <= MAX_ABS_FLOOR by {
            assert(floors.drop_last()[i] == floors[i]);
        }
        lemma_extremes_bounded(floors.drop_last());
    }
}

/// Counts the entries of `floors` whose position lies strictly between `low`
/// and `high`.
fn count_floors_between(floors: &[Floor], low: i64, high: i64) -> (n: usize)
    requires
        floors@.len() <= MAX_FLOOR_COUNT,
        forall|i: int|
            0 <= i < floors@.len() ==> -MAX_ABS_FLOOR <= #[trigger] floors@[i] && floors@[i]
                <= MAX_ABS_FLOOR,
    ensures
        n == spec_count_between(floors@, low as int, high as int),
        n <= floors@.len(),
{
    let mut n: usize = 0;
    let mut i: usize = 0;
    while i < floors.len()
        invariant
            i <= floors@.len(),
            n == spec_count_between(floors@.take(i as int), low as int, high as int),
            n <= i,
            forall|j: int|
                0 <= j < floors@.len() ==> -MAX_ABS_FLOOR <= #[trigger] floors@[j] && floors@[j]
                    <= MAX_ABS_FLOOR,
        decreases floors@.len() - i,
    {
        proof {
            let taken = floors@.take(i + 1);
            assert(taken.drop_last() =~= floors@.take(i as int));
            assert(taken.last() == floors@[i as int]);
            lemma_count_between_bounds(floors@.take(i as int), low as int, high as int);
        }
        let f = floors[i];
        if low < FLOOR_SCALE * f && FLOOR_SCALE * f < high {
            n = n + 1;
        }
        i = i + 1;
    }
    proof {
        assert(floors@.take(floors@.len() as int) =~= floors@);
    }
    n
}

/// The largest entry of `floors`, or zero on an empty list.
fn highest_floor(floors: &[Floor]) -> (r: i64)
    ensures
        r == spec_highest_or_zero(floors@),
{
    let mut r: i64 = 0;
    let mut i: usize = 0;
    while i < floors.len()
        invariant
            i <= floors@.len(),
            r == spec_highest_or_zero(floors@.take(i as int)),
        decreases floors@.len() - i,
    {
        proof {
            let taken = floors@.take(i + 1);
            assert(taken.drop_last() =~= floors@.take(i as int));
            assert(taken.last() == floors@[i as int]);
        }
        let f = floors[i];
        if i == 0 || f > r {
            r = f;
        }
        i = i + 1;
    }
    proof {
        assert(floors@.take(floors@.len() as int) =~= floors@);
    }
    r
}

/// The smallest entry of `floors`, or zero on an empty list.
fn lowest_floor(floors: &[Floor]) -> (r: i64)
    ensures
        r == spec_lowest_or_zero(floors@),
{
    let mut r: i64 = 0;
    let mut i: usize = 0;
    while i < floors.len()
        invariant
            i <= floors@.len(),
            r == spec_lowest_or_zero(floors@.take(i as int)),
        decreases floors@.len() - i,
    {
        proof {
            let taken = floors@.take(i + 1);
            assert(taken.drop_last() =~= floors@.take(i as int));
            assert(taken.last() == floors@[i as int]);
        }
        let f = floors[i];
        if i == 0 || f < r {
            r = f;
        }
        i = i + 1;
    }
    proof {
        assert(floors@.take(floors@.len() as int) =~= floors@);
    }
    r
}

/// The per-stop penalty total stays well within the machine range.
proof fn lemma_stop_penalty_bounds(stops: int, average_stop_millis: int)
    requires
        0 <= stops <= 2_000_000,
        0 <= average_stop_millis <= MAX_STOP_MILLIS,
    ensures
        0 <= stops * average_stop_millis <= 2_000_000_000_000,
{
    vstd::arithmetic::mul::lemma_mul_nonnegative(stops, average_stop_millis);
    vstd::arithmetic::mul::lemma_mul_upper_bound(
        stops,
        2_000_000,
        average_stop_millis,
        MAX_STOP_MILLIS as int,
    );
}

/// Milliseconds needed for the signed distance `distance` at `speed`.
fn travel_millis(distance: i64, speed: i64) -> (t: i64)
    requires
        0 < speed,
        -4_000_000_000 <= distance <= 4_000_000_000,
    ensures
        t == spec_travel_millis(distance as int, speed as int),
        -4_000_000_000_000 <= t <= 4_000_000_000_000,
{
    proof {
        if distance >= 0 {
            vstd::arithmetic::div_mod::lemma_div_pos_is_pos(distance * FLOOR_SCALE, speed as int);
            vstd::arithmetic::div_mod::lemma_div_is_ordered(
                distance * FLOOR_SCALE,
                4_000_000_000_000,
                speed as int,
            );
            vstd::arithmetic::div_mod::lemma_div_nonincreasing(4_000_000_000_000, speed as int);
        } else {
            vstd::arithmetic::div_mod::lemma_div_pos_is_pos((-distance) * FLOOR_SCALE, speed as int);
            vstd::arithmetic::div_mod::lemma_div_is_ordered(
                (-distance) * FLOOR_SCALE,
                4_000_000_000_000,
                speed as int,
            );
            vstd::arithmetic::div_mod::lemma_div_nonincreasing(4_000_000_000_000, speed as int);
        }
    }
    if distance >= 0 {
        distance * FLOOR_SCALE / speed
    } else {
        -((-distance) * FLOOR_SCALE / speed)
    }
}

impl LiftController {
    /// Estimates the milliseconds until arrival at `floor`, given the held
    /// direction, the sensor snapshot, and an average per-intermediate-stop
    /// penalty. Returns `None` exactly when the car is too slow to be judged
    /// moving, or when no travel direction is established.
    pub fn time_to_floor<S: LiftSensors>(
        &self,
        sensors: &S,
        floor: Floor,
        average_stop_millis: i64,
    ) -> (r: Option<i64>)
        requires
            self.wf(),
            -MAX_ABS_POSITION <= sensors.spec_position() <= MAX_ABS_POSITION,
            -MAX_ABS_VELOCITY <= sensors.spec_velocity() <= MAX_ABS_VELOCITY,
            sensors.spec_velocity() != 0 || self.spec_velocity_epsilon() > 0,
            sensors.spec_floors().len() <= MAX_FLOOR_COUNT,
            forall|i: int|
                0 <= i < sensors.spec_floors().len() ==> -MAX_ABS_FLOOR
                    <= #[trigger] sensors.spec_floors()[i] && sensors.spec_floors()[i]
                    <= MAX_ABS_FLOOR,
            -MAX_ABS_FLOOR <= floor <= MAX_ABS_FLOOR,
            0 <= average_stop_millis <= MAX_STOP_MILLIS,
        ensures
            r is None <==> (vstd::math::abs(sensors.spec_velocity() as int)
                < self.spec_velocity_epsilon() || self.spec_direction() == Direction::Neutral),
            r matches Some(t) ==> t == spec_time_to_floor(
                self.spec_direction(),
                sensors.spec_position() as int,
                vstd::math::abs(sensors.spec_velocity() as int) as int,
                sensors.spec_floors(),
                floor as int,
                average_stop_millis as int,
            ),
    {
        proof {
            self.lemma_views();
        }
        let current_position = sensors.current_floor();
        let speed = abs_i64(sensors.current_velocity());

        if speed < self.velocity_epsilon {
            return None;
        }
        let floors = sensors.floors_to_stop_at();
        proof {
            lemma_extremes_bounded(floors@);
        }
        let target_position = FLOOR_SCALE * floor;
        let highest = FLOOR_SCALE * highest_floor(floors);
        let lowest = FLOOR_SCALE * lowest_floor(floors);

        match self.direction {
            Direction::Neutral => None,
            Direction::Up => {
                if target_position > current_position {
                    let stops = count_floors_between(floors, current_position, target_position);
                    let distance = target_position - current_position;
                    proof {
                        lemma_stop_penalty_bounds(stops as int, average_stop_millis as int);
                    }
                    Some((stops as i64) * average_stop_millis + travel_millis(distance, speed))
                } else {
                    let above = count_floors_between(floors, current_position, highest);
                    let below = count_floors_between(floors, target_position, current_position);
                    let distance = highest - current_position + (highest - target_position);
                    proof {
                        lemma_stop_penalty_bounds(
                            above + below as int,
                            average_stop_millis as int,
                        );
                    }
                    Some(
                        ((above + below) as i64) * average_stop_millis + travel_millis(
                            distance,
                            speed,
                        ),
                    )
                }
            },
            Direction::Down => {
                if target_position > current_position {
                    let above = count_floors_between(floors, current_position, target_position);
                    let below = count_floors_between(floors, lowest, current_position);
                    let distance = current_position - lowest + (target_position - lowest);
                    proof {
                        lemma_stop_penalty_bounds(
                            above + below as int,
                            average_stop_millis as int,
                        );
                    }
                    Some(
                        ((above + below) as i64) * average_stop_millis + travel_millis(
                            distance,
                            speed,
                        ),
                    )
                } else {
                    let stops = count_floors_between(floors, target_position, current_position);
                    let distance = current_position - target_position;
                    proof {
                        lemma_stop_penalty_bounds(stops as int, average_stop_millis as int);
                    }
                    Some((stops as i64) * average_stop_millis + travel_millis(distance, speed))
                }
            },
        }
    }
}

} // verus!
