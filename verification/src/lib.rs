//! A per-tick decision core for a single elevator car.
//!
//! Once per control tick the controller is handed a snapshot of the car's
//! sensors and answers with an `Action`: the velocity to drive toward and
//! whether the car counts as stopped at a floor. The controller owns nothing
//! but its configuration and one persistent travel direction; the host owns
//! the sensors, the actuator and the list of requested floors.
//!
//! All distances are integers in thousandths of a floor, velocities in
//! thousandths of a floor per second, and durations in milliseconds, so that
//! every tolerance comparison and every velocity bound is exact.

mod controller;
mod estimate;
mod floors;
mod laws;
mod units;

pub use controller::Action;
pub use controller::Direction;
pub use controller::LiftController;
pub use controller::LiftSensors;
pub use controller::lemma_poll_velocity_safe;
pub use controller::next_target_floor;
pub use controller::spec_can_stop_floor;
pub use controller::spec_candidate;
pub use controller::spec_next_target;
pub use controller::spec_poll;
pub use controller::spec_poll_velocity;
pub use controller::spec_resolved_direction;
pub use controller::spec_stopped_at_floor;
pub use estimate::lemma_count_between_bounds;
pub use estimate::lemma_extremes_bounded;
pub use estimate::spec_count_between;
pub use estimate::spec_highest_or_zero;
pub use estimate::spec_lowest_or_zero;
pub use estimate::spec_time_to_floor;
pub use estimate::spec_travel_millis;
pub use floors::lemma_nearest_above_characterizes;
pub use floors::lemma_nearest_any_characterizes;
pub use floors::lemma_nearest_below_characterizes;
pub use floors::nearest_floor;
pub use floors::nearest_floor_above;
pub use floors::nearest_floor_below;
pub use floors::remove_floor;
pub use floors::spec_nearest_above;
pub use floors::spec_nearest_any;
pub use floors::spec_nearest_below;
pub use laws::lemma_direction_lock_no_skip_down;
pub use laws::lemma_direction_lock_no_skip_up;
pub use laws::lemma_single_request_converges;
pub use laws::lemma_single_request_idle;
pub use laws::lemma_single_request_step;
pub use laws::spec_plant_step;
pub use laws::spec_single_request_arrived;
pub use laws::spec_single_request_run;
pub use units::FLOOR_SCALE;
pub use units::Floor;
pub use units::MAX_ABS_FLOOR;
pub use units::MAX_ABS_POSITION;
pub use units::MAX_ABS_VELOCITY;
pub use units::MAX_FLOOR_COUNT;
pub use units::MAX_STOP_MILLIS;
pub use units::MAX_TICK_MILLIS;
pub use units::Position;
pub use units::Velocity;
pub use units::abs_i64;
pub use units::round_to_floor;
pub use units::spec_round_to_floor;
