//! Closed-loop scenarios: a host simulation drives the controller tick by
//! tick, integrating each commanded velocity, exactly as a real-time loop
//! would. Positions are thousandths of a floor, ticks milliseconds.

use lift::Action;
use lift::FLOOR_SCALE;
use lift::Floor;
use lift::LiftController;
use lift::LiftSensors;
use lift::Position;
use lift::Velocity;
use lift::remove_floor;
use lift::round_to_floor;

struct TestLift {
    position: Position,
    velocity: Velocity,
    floors_to_stop_at: Vec<Floor>,
    is_emergency_stop_activated: bool,
}

impl TestLift {
    fn new() -> Self {
        TestLift {
            position: 0,
            velocity: 0,
            floors_to_stop_at: Vec::new(),
            is_emergency_stop_activated: false,
        }
    }

    fn stop_at_floor(&mut self, floor: Floor) {
        if !self.floors_to_stop_at.contains(&floor) {
            self.floors_to_stop_at.push(floor);
        }
    }

    fn remove_floor_from_panel(&mut self, floor: Floor) {
        remove_floor(&mut self.floors_to_stop_at, floor);
    }

    fn accept_action(&mut self, action: Action, tick_millis: i64) {
        self.position += action.target_velocity * tick_millis / FLOOR_SCALE;
        self.velocity = action.target_velocity;
        if action.is_stopped_at_current_floor {
            let floor = round_to_floor(self.position);
            self.remove_floor_from_panel(floor);
        }
    }
}

impl LiftSensors for TestLift {
    fn current_floor(&self) -> Position {
        self.position
    }

    fn current_velocity(&self) -> Velocity {
        self.velocity
    }

    fn floors_to_stop_at(&self) -> &[Floor] {
        &self.floors_to_stop_at
    }

    fn is_emergency_stop_activated(&self) -> bool {
        self.is_emergency_stop_activated
    }
}

#[test]
fn go_to_tenth_floor() {
    let mut lift = TestLift::new();

    // Preferred velocity 0.5 floors/s, leeway 0.001 floors, epsilon 0.001.
    let mut controller = LiftController::new(500, 1, 1);

    let time_millis: i64 = 20_000;
    let tick_millis: i64 = 100;
    let steps = time_millis / tick_millis;

    lift.stop_at_floor(10);

    for step in 0..steps {
        let action = controller.poll(&lift, tick_millis);
        lift.accept_action(action, tick_millis);
        println!("{} {} {}", step * tick_millis, lift.position, lift.velocity);
    }

    assert_eq!(lift.current_floor(), 10 * FLOOR_SCALE);
}

#[test]
fn switch_direction() {
    let mut lift = TestLift::new();

    let mut controller = LiftController::new(500, 1, 1);
    let time_millis: i64 = 20_000;
    let tick_millis: i64 = 100;
    let steps = time_millis / tick_millis;

    lift.stop_at_floor(5);
    for _ in 0..steps {
        let action = controller.poll(&lift, tick_millis);
        if action.is_stopped_at_current_floor {
            println!("Goal is floor 5: position {}", lift.position);
            assert_eq!(5 * FLOOR_SCALE, lift.current_floor());
            lift.remove_floor_from_panel(5);
            break;
        }
        lift.accept_action(action, tick_millis);
    }

    lift.stop_at_floor(0);
    lift.stop_at_floor(1);
    lift.stop_at_floor(10);

    for _ in 0..steps {
        let action = controller.poll(&lift, tick_millis);
        if action.is_stopped_at_current_floor {
            println!("Goal is floor 10: position {}", lift.position);
            assert_eq!(10 * FLOOR_SCALE, lift.current_floor());
            lift.remove_floor_from_panel(10);
            break;
        }
        lift.accept_action(action, tick_millis);
    }

    for _ in 0..steps {
        let action = controller.poll(&lift, tick_millis);
        if action.is_stopped_at_current_floor {
            println!("Goal is floor 1: position {}", lift.position);
            assert_eq!(1 * FLOOR_SCALE, lift.current_floor());
            lift.remove_floor_from_panel(1);
            break;
        }
        lift.accept_action(action, tick_millis);
    }

    for _ in 0..steps {
        let action = controller.poll(&lift, tick_millis);
        if action.is_stopped_at_current_floor {
            println!("Goal is floor 0: position {}", lift.position);
            assert_eq!(0, lift.current_floor());
            lift.remove_floor_from_panel(0);
            break;
        }
        lift.accept_action(action, tick_millis);
    }
}

#[test]
fn emergency_stop() {
    let mut lift = TestLift::new();

    let velocity: i64 = 500;
    let mut controller = LiftController::new(velocity, 1, 1);
    let time_millis: i64 = 60_000;
    let tick_millis: i64 = 100;
    let steps = time_millis / tick_millis;
    let time_to_emergency_millis: i64 = 20_000;

    lift.stop_at_floor(9000);
    for i in 0..steps {
        if i * tick_millis >= time_to_emergency_millis {
            lift.is_emergency_stop_activated = true
        }

        let action = controller.poll(&lift, tick_millis);
        lift.accept_action(action, tick_millis);
    }

    // 0.5 floors/s for 20 s is exactly 10 floors.
    assert_eq!(velocity * time_to_emergency_millis / FLOOR_SCALE, lift.current_floor());
}

#[test]
fn emergency_stop_holds_zero_velocity() {
    let mut lift = TestLift::new();
    let mut controller = LiftController::new(500, 1, 1);
    let tick_millis: i64 = 100;

    lift.stop_at_floor(100);
    for _ in 0..50 {
        let action = controller.poll(&lift, tick_millis);
        lift.accept_action(action, tick_millis);
    }
    assert!(lift.velocity > 0);

    lift.is_emergency_stop_activated = true;
    for _ in 0..50 {
        let action = controller.poll(&lift, tick_millis);
        assert_eq!(action.target_velocity, 0);
        lift.accept_action(action, tick_millis);
        assert_eq!(lift.velocity, 0);
    }
}

#[test]
fn arrives_exactly_from_offset_start() {
    // Starting between floors, a single request is still met exactly.
    let mut lift = TestLift::new();
    lift.position = 700;
    let mut controller = LiftController::new(500, 1, 1);
    let tick_millis: i64 = 100;

    lift.stop_at_floor(3);
    let mut stopped = false;
    for _ in 0..1000 {
        let action = controller.poll(&lift, tick_millis);
        if action.is_stopped_at_current_floor {
            stopped = true;
            break;
        }
        lift.accept_action(action, tick_millis);
    }
    assert!(stopped);
    assert_eq!(lift.position, 3 * FLOOR_SCALE);
}

#[test]
fn never_overshoots_under_long_ticks() {
    // Even a tick of several seconds cannot carry the car past the target.
    let mut lift = TestLift::new();
    let mut controller = LiftController::new(500, 1, 1);
    let tick_millis: i64 = 5_000;

    lift.stop_at_floor(2);
    for _ in 0..100 {
        let action = controller.poll(&lift, tick_millis);
        assert!(action.target_velocity.abs() <= 500);
        let moved = action.target_velocity * tick_millis / FLOOR_SCALE;
        assert!(moved.abs() <= (2 * FLOOR_SCALE - lift.position).abs());
        lift.accept_action(action, tick_millis);
        assert!(lift.position <= 2 * FLOOR_SCALE);
    }
}
