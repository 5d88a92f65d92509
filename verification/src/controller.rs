//! The per-tick decision core: direction-locked target selection, the
//! overshoot-safe velocity command, and stop detection.

use vstd::prelude::*;

use crate::floors::nearest_floor;
use crate::floors::nearest_floor_above;
use crate::floors::nearest_floor_below;
use crate::floors::lemma_nearest_above_characterizes;
use crate::floors::lemma_nearest_below_characterizes;
use crate::floors::lemma_nearest_any_characterizes;
use crate::floors::spec_nearest_above;
use crate::floors::spec_nearest_any;
use crate::floors::spec_nearest_below;
use crate::units::FLOOR_SCALE;
use crate::units::Floor;
use crate::units::MAX_ABS_FLOOR;
use crate::units::MAX_ABS_POSITION;
use crate::units::MAX_ABS_VELOCITY;
use crate::units::MAX_TICK_MILLIS;
use crate::units::Position;
use crate::units::Velocity;
use crate::units::abs_i64;
use crate::units::round_to_floor;
use crate::units::spec_round_to_floor;

verus! {

/// The persistent travel direction of the car. `Neutral` means that no
/// direction is established, or, as the result of a selection, that the
/// caller-held direction is to be kept for this decision.
#[derive(Clone, Copy, Debug, PartialEq, Eq, Structural)]
pub enum Direction {
    Up,
    Down,
    Neutral,
}

/// The capability through which the controller reads the car once per tick.
/// Units follow the crate convention: positions in thousandths of a floor,
/// velocities in thousandths of a floor per second.
pub trait LiftSensors {
    /// The position the position sensor reports. The default stands for an
    /// unmodelled sensor; a verified implementation overrides it.
    open spec fn spec_position(&self) -> i64 {
        0
    }

    /// The velocity the velocity sensor reports.
    open spec fn spec_velocity(&self) -> i64 {
        0
    }

    /// The requested floors the panel reports, in panel order.
    open spec fn spec_floors(&self) -> Seq<i64> {
        Seq::empty()
    }

    /// Whether the emergency stop is engaged.
    open spec fn spec_emergency(&self) -> bool {
        false
    }

    /// Sensor reading of the current position.
    fn current_floor(&self) -> (p: Position)
        ensures
            p == self.spec_position(),
    ;

    /// Sensor reading of the current velocity.
    fn current_velocity(&self) -> (v: Velocity)
        ensures
            v == self.spec_velocity(),
    ;

    /// The list of floors to stop at, owned and mutated by the host alone.
    fn floors_to_stop_at(&self) -> (floors: &[Floor])
        ensures
            floors@ == self.spec_floors(),
    ;

    /// Whether the emergency stop has been activated.
    fn is_emergency_stop_activated(&self) -> (e: bool)
        ensures
            e == self.spec_emergency(),
    ;
}

/// Recommended action for one tick.
#[derive(Clone, Copy, Debug, PartialEq, Eq, Structural)]
pub struct Action {
    /// Velocity to drive toward.
    pub target_velocity: Velocity,
    /// Whether the controller considers the car stopped at the current floor,
    /// so that doors may open and embarkment may start.
    pub is_stopped_at_current_floor: bool,
}

/// The candidate floor of the direction-prioritized search: with an
/// established direction the nearest requested floor ahead, falling back to
/// the nearest behind; with no established direction the nearest in either
/// direction.
pub open spec fn spec_candidate(direction: Direction, current_floor: int, floors: Seq<i64>) -> Option<
    i64,
> {
    match direction {
        Direction::Up => match spec_nearest_above(floors, current_floor) {
            Some(f) => Some(f),
            None => spec_nearest_below(floors, current_floor),
        },
        Direction::Down => match spec_nearest_below(floors, current_floor) {
            Some(f) => Some(f),
            None => spec_nearest_above(floors, current_floor),
        },
        Direction::Neutral => spec_nearest_any(floors, current_floor),
    }
}

/// The direction resolved from the offset of a target floor against the
/// rounded current floor.
pub open spec fn spec_resolved_direction(target: int, current_floor: int) -> Direction {
    if target > current_floor {
        Direction::Up
    } else if target < current_floor {
        Direction::Down
    } else {
        Direction::Neutral
    }
}

/// The target floor and resolved direction for one decision: the candidate of
/// the direction-prioritized search, discarded when it lies within
/// `floor_leeway` of the exact current position.
pub open spec fn spec_next_target(
    direction: Direction,
    position: int,
    floor_leeway: int,
    floors: Seq<i64>,
) -> (Direction, Option<i64>) {
    let current_floor = spec_round_to_floor(position);
    match spec_candidate(direction, current_floor, floors) {
        Some(f) => if vstd::math::abs(FLOOR_SCALE * f - position) > floor_leeway {
            (spec_resolved_direction(f as int, current_floor), Some(f))
        } else {
            (Direction::Neutral, None)
        },
        None => (Direction::Neutral, None),
    }
}

/// Whether position and velocity are within tolerance of "stopped at a
/// floor": the speed below `velocity_epsilon` and the position within
/// `floor_leeway` of the nearest floor.
pub open spec fn spec_stopped_at_floor(
    velocity: int,
    velocity_epsilon: int,
    position: int,
    floor_leeway: int,
) -> bool {
    vstd::math::abs(velocity) < velocity_epsilon && vstd::math::abs(
        position - FLOOR_SCALE * spec_round_to_floor(position),
    ) < floor_leeway
}

/// The floor the car can stop at from `position`, if its distance to the
/// nearest floor is within `floor_leeway`.
pub open spec fn spec_can_stop_floor(position: int, floor_leeway: int) -> Option<int> {
    if vstd::math::abs(position - FLOOR_SCALE * spec_round_to_floor(position)) < floor_leeway {
        Some(spec_round_to_floor(position))
    } else {
        None
    }
}

/// The velocity command toward `target`: the distance covered per tick, capped
/// at `prefered_velocity`, signed like the remaining distance. The cap against
/// the distance-per-tick is what makes the command overshoot-safe.
pub open spec fn spec_poll_velocity(
    prefered_velocity: int,
    position: int,
    tick_millis: int,
    target: int,
) -> int {
    let signed_distance = FLOOR_SCALE * target - position;
    let exact = vstd::math::abs(signed_distance) * FLOOR_SCALE / tick_millis;
    let magnitude = if prefered_velocity <= exact {
        prefered_velocity
    } else {
        exact
    };
    if signed_distance >= 0 {
        magnitude
    } else {
        -magnitude
    }
}

/// The full outcome of one poll, as (target velocity, stopped-at-floor flag,
/// direction after the call). The emergency stop overrides everything; with a
/// target floor the velocity command is shaped toward it and a resolved
/// non-neutral direction overwrites the held one; with none the car idles at
/// its current floor.
pub open spec fn spec_poll(
    direction: Direction,
    prefered_velocity: int,
    floor_leeway: int,
    velocity_epsilon: int,
    position: int,
    velocity: int,
    floors: Seq<i64>,
    emergency: bool,
    tick_millis: int,
) -> (int, bool, Direction) {
    let stopped = spec_stopped_at_floor(velocity, velocity_epsilon, position, floor_leeway);
    if emergency {
        (0, stopped, direction)
    } else {
        let (resolved, target) = spec_next_target(direction, position, floor_leeway, floors);
        match target {
            Some(t) => (
                spec_poll_velocity(prefered_velocity, position, tick_millis, t as int),
                false,
                if resolved == Direction::Neutral {
                    direction
                } else {
                    resolved
                },
            ),
            None => (0, true, direction),
        }
    }
}

/// Finds the next target floor and the direction toward it.
///
/// Prioritizing the held direction over switching is what bounds the worst
/// case wait: in a building with N distinct floors the car makes at most
/// N - 1 stops before any outstanding request is served in either direction.
/// A shortest-distance-first rule would strand a far request indefinitely.
pub fn next_target_floor(
    direction: Direction,
    current_position: Position,
    floor_leeway: Position,
    floors: &[Floor],
) -> (r: (Direction, Option<Floor>))
    requires
        -MAX_ABS_POSITION <= current_position <= MAX_ABS_POSITION,
        0 <= floor_leeway,
        forall|i: int|
            0 <= i < floors@.len() ==> -MAX_ABS_FLOOR <= #[trigger] floors@[i] && floors@[i]
                <= MAX_ABS_FLOOR,
    ensures
        r.0 == spec_next_target(direction, current_position as int, floor_leeway as int, floors@).0,
        r.1 == spec_next_target(direction, current_position as int, floor_leeway as int, floors@).1,
        r.1 matches Some(t) ==> floors@.contains(t) && -MAX_ABS_FLOOR <= t <= MAX_ABS_FLOOR,
{
    let current_floor = round_to_floor(current_position);
    let candidate = match direction {
        Direction::Up => match nearest_floor_above(current_floor, floors) {
            Some(f) => Some(f),
            None => nearest_floor_below(current_floor, floors),
        },
        Direction::Down => match nearest_floor_below(current_floor, floors) {
            Some(f) => Some(f),
            None => nearest_floor_above(current_floor, floors),
        },
        Direction::Neutral => nearest_floor(current_floor, floors),
    };
    proof {
        lemma_nearest_above_characterizes(floors@, current_floor as int);
        lemma_nearest_below_characterizes(floors@, current_floor as int);
        lemma_nearest_any_characterizes(floors@, current_floor as int);
    }
    match candidate {
        Some(f) => {
            if abs_i64(FLOOR_SCALE * f - current_position) > floor_leeway {
                let resolved = if f > current_floor {
                    Direction::Up
                } else if f < current_floor {
                    Direction::Down
                } else {
                    Direction::Neutral
                };
                (resolved, Some(f))
            } else {
                (Direction::Neutral, None)
            }
        },
        None => (Direction::Neutral, None),
    }
}

/// The configuration and the one piece of state, the persistent travel
/// direction, of a single car's controller.
pub struct LiftController {
    /// Preferred target velocity magnitude for the car.
    pub(crate) prefered_velocity: Velocity,
    /// Position tolerance: nearer than this to a floor counts as at it.
    pub(crate) floor_leeway: Position,
    /// Speed tolerance: slower than this counts as stationary.
    pub(crate) velocity_epsilon: Velocity,
    /// The current travel direction of the car.
    pub(crate) direction: Direction,
}

impl LiftController {
    /// The configured preferred velocity magnitude.
    pub closed spec fn spec_prefered_velocity(&self) -> i64 {
        self.prefered_velocity
    }

    /// The configured position tolerance.
    pub closed spec fn spec_floor_leeway(&self) -> i64 {
        self.floor_leeway
    }

    /// The configured speed tolerance.
    pub closed spec fn spec_velocity_epsilon(&self) -> i64 {
        self.velocity_epsilon
    }

    /// The held travel direction.
    pub closed spec fn spec_direction(&self) -> Direction {
        self.direction
    }

    /// The configuration contract: a positive preferred velocity and
    /// nonnegative tolerances, all within the machine bounds of the crate.
    pub open spec fn wf(&self) -> bool {
        &&& 0 < self.spec_prefered_velocity() <= MAX_ABS_VELOCITY
        &&& 0 <= self.spec_floor_leeway() <= MAX_ABS_POSITION
        &&& 0 <= self.spec_velocity_epsilon() <= MAX_ABS_VELOCITY
    }

    /// The configuration views name the fields one for one.
    pub(crate) proof fn lemma_views(&self)
        ensures
            self.spec_prefered_velocity() == self.prefered_velocity,
            self.spec_floor_leeway() == self.floor_leeway,
            self.spec_velocity_epsilon() == self.velocity_epsilon,
            self.spec_direction() == self.direction,
    {
    }

    /// Creates a controller with the given configuration and no established
    /// direction.
    pub fn new(prefered_velocity: Velocity, floor_leeway: Position, velocity_epsilon: Velocity) -> (r:
        LiftController)
        requires
            0 < prefered_velocity <= MAX_ABS_VELOCITY,
            0 <= floor_leeway <= MAX_ABS_POSITION,
            0 <= velocity_epsilon <= MAX_ABS_VELOCITY,
        ensures
            r.wf(),
            r.spec_prefered_velocity() == prefered_velocity,
            r.spec_floor_leeway() == floor_leeway,
            r.spec_velocity_epsilon() == velocity_epsilon,
            r.spec_direction() == Direction::Neutral,
    {
        LiftController {
            prefered_velocity,
            floor_leeway,
            velocity_epsilon,
            direction: Direction::Neutral,
        }
    }

    /// Checks whether the car could stop where it is: returns the nearest
    /// floor when the current position is within `floor_leeway` of it, and
    /// `None` when the car is between floors.
    pub fn can_stop_at_floor<S: LiftSensors>(&self, sensors: &S) -> (r: Option<Floor>)
        requires
            -MAX_ABS_POSITION <= sensors.spec_position() <= MAX_ABS_POSITION,
        ensures
            match r {
                Some(f) => spec_can_stop_floor(
                    sensors.spec_position() as int,
                    self.spec_floor_leeway() as int,
                ) == Some(f as int),
                None => spec_can_stop_floor(
                    sensors.spec_position() as int,
                    self.spec_floor_leeway() as int,
                ) is None,
            },
    {
        let position = sensors.current_floor();
        let nearest = round_to_floor(position);
        let floor_distance = abs_i64(position - FLOOR_SCALE * nearest);
        if floor_distance < self.floor_leeway {
            Some(nearest)
        } else {
            None
        }
    }

    /// Polls the sensors once and decides this tick's action.
    ///
    /// The emergency stop commands zero velocity unconditionally. Otherwise,
    /// when the direction-prioritized search yields a target floor, the
    /// command is the preferred velocity capped so that one tick cannot carry
    /// the car past the target, and a resolved non-neutral direction is
    /// persisted; with no target the car idles as stopped at its floor.
    pub fn poll<S: LiftSensors>(&mut self, sensors: &S, tick_millis: i64) -> (action: Action)
        requires
            old(self).wf(),
            0 < tick_millis <= MAX_TICK_MILLIS,
            -MAX_ABS_POSITION <= sensors.spec_position() <= MAX_ABS_POSITION,
            -MAX_ABS_VELOCITY <= sensors.spec_velocity() <= MAX_ABS_VELOCITY,
            forall|i: int|
                0 <= i < sensors.spec_floors().len() ==> -MAX_ABS_FLOOR
                    <= #[trigger] sensors.spec_floors()[i] && sensors.spec_floors()[i]
                    <= MAX_ABS_FLOOR,
        ensures
            final(self).wf(),
            final(self).spec_prefered_velocity() == old(self).spec_prefered_velocity(),
            final(self).spec_floor_leeway() == old(self).spec_floor_leeway(),
            final(self).spec_velocity_epsilon() == old(self).spec_velocity_epsilon(),
            (action.target_velocity as int, action.is_stopped_at_current_floor, final(self).spec_direction())
                == spec_poll(
                old(self).spec_direction(),
                old(self).spec_prefered_velocity() as int,
                old(self).spec_floor_leeway() as int,
                old(self).spec_velocity_epsilon() as int,
                sensors.spec_position() as int,
                sensors.spec_velocity() as int,
                sensors.spec_floors(),
                sensors.spec_emergency(),
                tick_millis as int,
            ),
            sensors.spec_emergency() ==> action.target_velocity == 0,
            vstd::math::abs(action.target_velocity as int) <= old(self).spec_prefered_velocity(),
            !sensors.spec_emergency() ==> match spec_next_target(
                old(self).spec_direction(),
                sensors.spec_position() as int,
                old(self).spec_floor_leeway() as int,
                sensors.spec_floors(),
            ).1 {
                Some(t) => {
                    let signed_distance = FLOOR_SCALE * t - sensors.spec_position();
                    &&& vstd::math::abs(action.target_velocity as int) * tick_millis
                        <= vstd::math::abs(signed_distance) * FLOOR_SCALE
                    &&& signed_distance > 0 ==> action.target_velocity >= 0
                    &&& signed_distance < 0 ==> action.target_velocity <= 0
                },
                None => action.target_velocity == 0,
            },
    {
        let velocity = sensors.current_velocity();
        let position = sensors.current_floor();
        let is_stopped = abs_i64(velocity) < self.velocity_epsilon;
        let can_stop = self.can_stop_at_floor(sensors);
        let is_stopped_at_current_floor = is_stopped && can_stop.is_some();

        // The emergency stop sensor takes the absolutely highest priority.
        if sensors.is_emergency_stop_activated() {
            return Action { target_velocity: 0, is_stopped_at_current_floor };
        }
        let (resolved, target) = next_target_floor(
            self.direction,
            position,
            self.floor_leeway,
            sensors.floors_to_stop_at(),
        );
        match target {
            Some(next_target_floor) => {
                // A resolved neutral direction means "keep going the same
                // way": only a non-neutral one overwrites the held direction.
                match resolved {
                    Direction::Neutral => {},
                    _ => {
                        self.direction = resolved;
                    },
                }
                // Cap the command so that a long tick or a near floor cannot
                // carry the car past the target within this tick.
                let signed_distance = FLOOR_SCALE * next_target_floor - position;
                let exact_magnitude = abs_i64(signed_distance) * FLOOR_SCALE / tick_millis;
                let magnitude = if self.prefered_velocity <= exact_magnitude {
                    self.prefered_velocity
                } else {
                    exact_magnitude
                };
                let target_velocity = if signed_distance >= 0 {
                    magnitude
                } else {
                    -magnitude
                };
                proof {
                    lemma_poll_velocity_safe(
                        self.prefered_velocity as int,
                        position as int,
                        tick_millis as int,
                        next_target_floor as int,
                    );
                }
                Action { target_velocity, is_stopped_at_current_floor: false }
            },
            None => Action { target_velocity: 0, is_stopped_at_current_floor: true },
        }
    }
}

/// The shaped velocity command is no faster than preferred, signed like the
/// remaining distance, and covers at most that distance in one tick.
pub proof fn lemma_poll_velocity_safe(
    prefered_velocity: int,
    position: int,
    tick_millis: int,
    target: int,
)
    requires
        0 < prefered_velocity,
        0 < tick_millis,
    ensures
        ({
            let v = spec_poll_velocity(prefered_velocity, position, tick_millis, target);
            let signed_distance = FLOOR_SCALE * target - position;
            &&& vstd::math::abs(v) <= prefered_velocity
            &&& vstd::math::abs(v) * tick_millis <= vstd::math::abs(signed_distance) * FLOOR_SCALE
            &&& signed_distance > 0 ==> v >= 0
            &&& signed_distance < 0 ==> v <= 0
        }),
{
    let signed_distance = FLOOR_SCALE * target - position;
    let a = vstd::math::abs(signed_distance) * FLOOR_SCALE;
    let exact = a / tick_millis;
    vstd::arithmetic::div_mod::lemma_fundamental_div_mod(a, tick_millis);
    vstd::arithmetic::div_mod::lemma_mod_bound(a, tick_millis);
    assert(exact * tick_millis <= a);
    assert(exact >= 0) by {
        vstd::arithmetic::div_mod::lemma_div_pos_is_pos(a, tick_millis);
    }
    let magnitude = if prefered_velocity <= exact {
        prefered_velocity
    } else {
        exact
    };
    assert(magnitude * tick_millis <= exact * tick_millis) by {
        vstd::arithmetic::mul::lemma_mul_inequality(magnitude, exact, tick_millis);
    }
}

} // verus!
