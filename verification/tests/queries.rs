//! Direct checks of the floor searches, the target selection, the stop
//! detector, the velocity shaping and the time-to-floor estimator.

use lift::Action;
use lift::Direction;
use lift::FLOOR_SCALE;
use lift::Floor;
use lift::LiftController;
use lift::LiftSensors;
use lift::Position;
use lift::Velocity;
use lift::abs_i64;
use lift::nearest_floor;
use lift::nearest_floor_above;
use lift::nearest_floor_below;
use lift::next_target_floor;
use lift::remove_floor;
use lift::round_to_floor;

struct Snapshot {
    position: Position,
    velocity: Velocity,
    floors: Vec<Floor>,
    emergency: bool,
}

impl LiftSensors for Snapshot {
    fn current_floor(&self) -> Position {
        self.position
    }

    fn current_velocity(&self) -> Velocity {
        self.velocity
    }

    fn floors_to_stop_at(&self) -> &[Floor] {
        &self.floors
    }

    fn is_emergency_stop_activated(&self) -> bool {
        self.emergency
    }
}

fn snapshot(position: Position, velocity: Velocity, floors: Vec<Floor>) -> Snapshot {
    Snapshot { position, velocity, floors, emergency: false }
}

#[test]
fn rounding_halves_away_from_zero() {
    assert_eq!(round_to_floor(0), 0);
    assert_eq!(round_to_floor(1499), 1);
    assert_eq!(round_to_floor(1500), 2);
    assert_eq!(round_to_floor(-1499), -1);
    assert_eq!(round_to_floor(-1500), -2);
    assert_eq!(abs_i64(-7), 7);
    assert_eq!(abs_i64(7), 7);
}

#[test]
fn nearest_queries() {
    let empty: Vec<Floor> = Vec::new();
    assert_eq!(nearest_floor_above(5, &empty), None);
    assert_eq!(nearest_floor_below(5, &empty), None);
    assert_eq!(nearest_floor(5, &empty), None);

    let floors = vec![3, 7];
    assert_eq!(nearest_floor_above(5, &floors), Some(7));
    assert_eq!(nearest_floor_below(5, &floors), Some(3));
    assert_eq!(nearest_floor_above(7, &floors), Some(7));
    assert_eq!(nearest_floor_below(3, &floors), Some(3));
    assert_eq!(nearest_floor_above(8, &floors), None);
    assert_eq!(nearest_floor_below(2, &floors), None);
}

#[test]
fn nearest_tie_takes_earliest_entry() {
    // Both entries are two floors away; the earliest in the list wins.
    assert_eq!(nearest_floor(5, &[3, 7]), Some(3));
    assert_eq!(nearest_floor(5, &[7, 3]), Some(7));
    assert_eq!(nearest_floor(5, &[9, 6, 4]), Some(6));
}

#[test]
fn nearest_tolerates_duplicates() {
    let floors = vec![4, 4, 9, 4];
    assert_eq!(nearest_floor_above(2, &floors), Some(4));
    assert_eq!(nearest_floor_below(11, &floors), Some(9));
    assert_eq!(nearest_floor(5, &floors), Some(4));
}

#[test]
fn remove_floor_takes_earliest_occurrence() {
    let mut floors = vec![5, 3, 5];
    remove_floor(&mut floors, 5);
    assert_eq!(floors, vec![3, 5]);
    remove_floor(&mut floors, 8);
    assert_eq!(floors, vec![3, 5]);
    remove_floor(&mut floors, 3);
    remove_floor(&mut floors, 5);
    assert!(floors.is_empty());
}

#[test]
fn target_selection_prefers_held_direction() {
    // Floors 4 and 6 are equally near; the held direction decides.
    let floors = vec![4, 6];
    let (dir, target) = next_target_floor(Direction::Up, 5 * FLOOR_SCALE, 1, &floors);
    assert_eq!(target, Some(6));
    assert_eq!(dir, Direction::Up);
    let (dir, target) = next_target_floor(Direction::Down, 5 * FLOOR_SCALE, 1, &floors);
    assert_eq!(target, Some(4));
    assert_eq!(dir, Direction::Down);
    let (dir, target) = next_target_floor(Direction::Neutral, 5 * FLOOR_SCALE, 1, &floors);
    assert_eq!(target, Some(4));
    assert_eq!(dir, Direction::Down);
}

#[test]
fn target_selection_falls_back_behind() {
    // Nothing lies ahead of the held direction, so the search reverses.
    let floors = vec![2];
    let (dir, target) = next_target_floor(Direction::Up, 5 * FLOOR_SCALE, 1, &floors);
    assert_eq!(target, Some(2));
    assert_eq!(dir, Direction::Down);
    let floors = vec![8];
    let (dir, target) = next_target_floor(Direction::Down, 5 * FLOOR_SCALE, 1, &floors);
    assert_eq!(target, Some(8));
    assert_eq!(dir, Direction::Up);
}

#[test]
fn target_within_leeway_is_discarded() {
    let floors = vec![5];
    let (dir, target) = next_target_floor(Direction::Neutral, 5 * FLOOR_SCALE, 1, &floors);
    assert_eq!(target, None);
    assert_eq!(dir, Direction::Neutral);
    // A floor just beyond the leeway is a real target again.
    let (_, target) = next_target_floor(Direction::Neutral, 5 * FLOOR_SCALE + 2, 1, &floors);
    assert_eq!(target, Some(5));
}

#[test]
fn can_stop_only_near_a_floor() {
    let controller = LiftController::new(500, 1, 1);
    assert_eq!(controller.can_stop_at_floor(&snapshot(5 * FLOOR_SCALE, 0, vec![])), Some(5));
    assert_eq!(controller.can_stop_at_floor(&snapshot(5 * FLOOR_SCALE + 400, 0, vec![])), None);
    let wide = LiftController::new(500, 500, 1);
    assert_eq!(wide.can_stop_at_floor(&snapshot(5 * FLOOR_SCALE + 400, 0, vec![])), Some(5));
}

#[test]
fn emergency_overrides_requests() {
    let mut controller = LiftController::new(500, 1, 1);
    let mut sensors = snapshot(3 * FLOOR_SCALE + 250, 500, vec![0, 10, 20]);
    sensors.emergency = true;
    let action: Action = controller.poll(&sensors, 100);
    assert_eq!(action.target_velocity, 0);
    assert!(!action.is_stopped_at_current_floor);
}

#[test]
fn emergency_reports_stop_state_truthfully() {
    let mut controller = LiftController::new(500, 1, 1);
    let mut sensors = snapshot(5 * FLOOR_SCALE, 0, vec![9]);
    sensors.emergency = true;
    let action = controller.poll(&sensors, 100);
    assert_eq!(action.target_velocity, 0);
    assert!(action.is_stopped_at_current_floor);
}

#[test]
fn velocity_is_capped_and_signed() {
    let mut controller = LiftController::new(500, 1, 1);
    // Far target above: full preferred velocity, positive.
    let action = controller.poll(&snapshot(0, 0, vec![10]), 100);
    assert_eq!(action.target_velocity, 500);
    // Far target below: full preferred velocity, negative.
    let mut controller = LiftController::new(500, 1, 1);
    let action = controller.poll(&snapshot(10 * FLOOR_SCALE, 0, vec![0]), 100);
    assert_eq!(action.target_velocity, -500);
}

#[test]
fn velocity_shrinks_to_land_exactly() {
    // Ten position units from the floor, one tick of 100 ms: the command is
    // exactly the distance per tick, not the preferred velocity.
    let mut controller = LiftController::new(500, 1, 1);
    let action = controller.poll(&snapshot(10 * FLOOR_SCALE - 10, 100, vec![10]), 100);
    assert_eq!(action.target_velocity, 100);
    assert_eq!(action.target_velocity * 100 / FLOOR_SCALE, 10);
}

#[test]
fn long_tick_cannot_overshoot() {
    // One floor away with a 1000-second tick: the commanded velocity times
    // the tick exactly meets the distance, never exceeds it.
    let mut controller = LiftController::new(500, 1, 1);
    let action = controller.poll(&snapshot(0, 0, vec![1]), 1_000_000);
    assert_eq!(action.target_velocity, 1);
    assert!(action.target_velocity * 1_000_000 <= FLOOR_SCALE * FLOOR_SCALE);
}

#[test]
fn idle_without_requests() {
    let mut controller = LiftController::new(500, 1, 1);
    let action = controller.poll(&snapshot(5 * FLOOR_SCALE, 0, vec![]), 100);
    assert_eq!(action.target_velocity, 0);
    assert!(action.is_stopped_at_current_floor);
}

#[test]
fn time_to_floor_needs_motion_and_direction() {
    // Stationary: no estimate, whatever the direction.
    let controller = LiftController::new(500, 1, 1);
    assert_eq!(controller.time_to_floor(&snapshot(0, 0, vec![10]), 10, 1000), None);
    // Moving, but no established direction: still no estimate.
    assert_eq!(controller.time_to_floor(&snapshot(0, 500, vec![10]), 10, 1000), None);
}

#[test]
fn time_to_floor_direct_ascent() {
    let mut controller = LiftController::new(500, 1, 1);
    // Establish direction up.
    controller.poll(&snapshot(0, 0, vec![10]), 100);
    // No intermediate stops: five floors at 0.5 floors/s is 10 s.
    let t = controller.time_to_floor(&snapshot(0, 500, vec![10]), 5, 7_000);
    assert_eq!(t, Some(10_000));
    // Floors 2 and 3 lie on the way: two stop penalties on top.
    let t = controller.time_to_floor(&snapshot(0, 500, vec![2, 3, 10]), 5, 7_000);
    assert_eq!(t, Some(24_000));
}

#[test]
fn time_to_floor_behind_reverses_at_extreme() {
    let mut controller = LiftController::new(500, 1, 1);
    controller.poll(&snapshot(0, 0, vec![10]), 100);
    // Moving up at floor 5, target 1 behind, highest request 8: up three
    // floors, back seven, with one requested floor passed on the way down.
    let t = controller.time_to_floor(&snapshot(5 * FLOOR_SCALE, 500, vec![8, 2]), 1, 7_000);
    assert_eq!(t, Some(7_000 + 20_000));
}

#[test]
fn time_to_floor_direct_descent() {
    let mut controller = LiftController::new(500, 1, 1);
    // Establish direction down.
    controller.poll(&snapshot(10 * FLOOR_SCALE, 0, vec![0]), 100);
    // From floor 10 down to 4, passing requested floors 7 and 5.
    let t = controller.time_to_floor(&snapshot(10 * FLOOR_SCALE, 500, vec![7, 5, 0]), 4, 7_000);
    assert_eq!(t, Some(2 * 7_000 + 12_000));
}

#[test]
fn time_to_floor_below_then_above() {
    let mut controller = LiftController::new(500, 1, 1);
    controller.poll(&snapshot(10 * FLOOR_SCALE, 0, vec![0]), 100);
    // Moving down at floor 5, target 7 ahead only after reversing at the
    // lowest request 2: down three floors, up five, passing floor 3 once
    // below and floor 6 once above.
    let t = controller.time_to_floor(&snapshot(5 * FLOOR_SCALE, 500, vec![3, 2, 6]), 7, 7_000);
    assert_eq!(t, Some(2 * 7_000 + 16_000));
}

#[test]
fn direction_persists_across_polls() {
    let mut controller = LiftController::new(500, 1, 1);
    // Going up past floor 5 establishes up.
    controller.poll(&snapshot(0, 0, vec![10]), 100);
    // With 4 and 6 equally near, the held up-direction picks 6.
    let action = controller.poll(&snapshot(5 * FLOOR_SCALE, 500, vec![4, 6]), 100);
    assert!(action.target_velocity > 0);
}
