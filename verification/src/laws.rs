//! Proofs of the controller-wide guarantees: convergence of the closed loop
//! on a single request, and the no-skip property of the direction lock.

use vstd::prelude::*;

use crate::controller::Direction;
use crate::controller::spec_next_target;
use crate::controller::spec_poll;
use crate::controller::spec_poll_velocity;
use crate::floors::lemma_nearest_above_characterizes;
use crate::floors::lemma_nearest_below_characterizes;
use crate::floors::spec_nearest_above;
use crate::floors::spec_nearest_below;
use crate::units::FLOOR_SCALE;
use crate::units::spec_round_to_floor;

verus! {

/// One step of the surrounding plant: the host integrates the commanded
/// velocity over one tick, the quotient truncated toward zero as machine
/// division does it.
pub open spec fn spec_plant_step(position: int, velocity: int, tick_millis: int) -> int {
    if velocity >= 0 {
        position + velocity * tick_millis / (FLOOR_SCALE as int)
    } else {
        position - (-velocity) * tick_millis / (FLOOR_SCALE as int)
    }
}

/// The closed loop on a single requested floor `f`: `n` rounds of polling the
/// controller and letting the plant integrate the command. The state is
/// (position, velocity, held direction).
pub open spec fn spec_single_request_run(
    prefered_velocity: int,
    floor_leeway: int,
    velocity_epsilon: int,
    tick_millis: int,
    f: i64,
    position: int,
    velocity: int,
    direction: Direction,
    n: nat,
) -> (int, int, Direction)
    decreases n,
{
    if n == 0 {
        (position, velocity, direction)
    } else {
        let out = spec_poll(
            direction,
            prefered_velocity,
            floor_leeway,
            velocity_epsilon,
            position,
            velocity,
            seq![f],
            false,
            tick_millis,
        );
        spec_single_request_run(
            prefered_velocity,
            floor_leeway,
            velocity_epsilon,
            tick_millis,
            f,
            spec_plant_step(position, out.0, tick_millis),
            out.0,
            out.2,
            (n - 1) as nat,
        )
    }
}

/// With a single requested floor the direction-prioritized search always
/// offers that floor, whatever direction is held.
proof fn lemma_single_request_candidate(direction: Direction, position: int, floor_leeway: int, f: i64)
    ensures
        spec_next_target(direction, position, floor_leeway, seq![f]) == (if vstd::math::abs(
            FLOOR_SCALE * f - position,
        ) > floor_leeway {
            (
                crate::controller::spec_resolved_direction(
                    f as int,
                    spec_round_to_floor(position),
                ),
                Some(f),
            )
        } else {
            (Direction::Neutral, None::<i64>)
        }),
{
    let s = seq![f];
    assert(s.drop_last() =~= Seq::<i64>::empty());
    let cf = spec_round_to_floor(position);
    assert(spec_nearest_above(Seq::<i64>::empty(), cf) is None);
    assert(spec_nearest_below(Seq::<i64>::empty(), cf) is None);
    assert(crate::floors::spec_nearest_any(Seq::<i64>::empty(), cf) is None);
    assert(s.last() == f);
}

/// While the single requested floor is farther than the leeway, one round of
/// the closed loop brings the car strictly nearer without carrying it past,
/// and lands it exactly on the floor as soon as the distance cap undercuts
/// the preferred velocity.
///
/// The divisibility condition, a tick that divides one second evenly, is what
/// makes the landing exact under truncating arithmetic.
pub proof fn lemma_single_request_step(
    prefered_velocity: int,
    floor_leeway: int,
    velocity_epsilon: int,
    tick_millis: int,
    f: i64,
    position: int,
    velocity: int,
    direction: Direction,
)
    requires
        0 < prefered_velocity,
        0 <= floor_leeway,
        0 < tick_millis <= FLOOR_SCALE,
        (FLOOR_SCALE as int) % tick_millis == 0,
        prefered_velocity * tick_millis >= FLOOR_SCALE,
        vstd::math::abs(FLOOR_SCALE * f - position) > floor_leeway,
    ensures
        ({
            let out = spec_poll(
                direction,
                prefered_velocity,
                floor_leeway,
                velocity_epsilon,
                position,
                velocity,
                seq![f],
                false,
                tick_millis,
            );
            let next = spec_plant_step(position, out.0, tick_millis);
            let d = vstd::math::abs(FLOOR_SCALE * f - position);
            let d2 = vstd::math::abs(FLOOR_SCALE * f - next);
            &&& d2 < d
            &&& (FLOOR_SCALE * f - position > 0 ==> FLOOR_SCALE * f - next >= 0)
            &&& (FLOOR_SCALE * f - position < 0 ==> FLOOR_SCALE * f - next <= 0)
            &&& (prefered_velocity * tick_millis >= d * FLOOR_SCALE ==> next == FLOOR_SCALE * f)
        }),
{
    lemma_single_request_candidate(direction, position, floor_leeway, f);
    let sd = FLOOR_SCALE * f - position;
    let d = vstd::math::abs(sd) as int;
    let scale = FLOOR_SCALE as int;
    let tick = tick_millis;
    let k = scale / tick;

    // The tick divides one second: FLOOR_SCALE == k * tick with k >= 1.
    vstd::arithmetic::div_mod::lemma_fundamental_div_mod(scale, tick);
    assert(scale == k * tick);
    vstd::arithmetic::div_mod::lemma_div_by_self(tick);
    vstd::arithmetic::div_mod::lemma_div_is_ordered(tick, scale, tick);
    assert(k >= 1);

    // The uncapped magnitude is exactly d * k.
    let exact = d * scale / tick;
    assert(d * scale == (d * k) * tick) by (nonlinear_arith)
        requires
            scale == k * tick,
    ;
    vstd::arithmetic::div_mod::lemma_div_by_multiple(d * k, tick);
    assert(exact == d * k);

    let v = spec_poll_velocity(prefered_velocity, position, tick, f as int);
    let m = vstd::math::abs(v) as int;
    assert(m == if prefered_velocity <= exact {
        prefered_velocity
    } else {
        exact
    });
    let step = m * tick / scale;

    if prefered_velocity >= exact {
        // Landing: the cap engages, one tick covers the exact distance.
        assert(m == exact == d * k);
        assert(m * tick == d * scale) by (nonlinear_arith)
            requires
                m == d * k,
                scale == k * tick,
        ;
        vstd::arithmetic::div_mod::lemma_div_by_multiple(d, scale);
        assert(step == d);
    } else {
        // Cruise: the preferred velocity covers at least one unit and, by the
        // cap comparison, strictly less than the whole distance.
        assert(m == prefered_velocity);
        vstd::arithmetic::div_mod::lemma_div_is_ordered(scale, m * tick, scale);
        vstd::arithmetic::div_mod::lemma_div_by_self(scale);
        assert(step >= 1);
        assert(m + 1 <= d * k);
        assert(m * tick <= d * scale - tick) by (nonlinear_arith)
            requires
                m + 1 <= d * k,
                scale == k * tick,
                tick > 0,
        ;
        vstd::arithmetic::div_mod::lemma_div_is_ordered(m * tick, d * scale - 1, scale);
        assert(d * scale - 1 == (d - 1) * scale + (scale - 1)) by (nonlinear_arith);
        vstd::arithmetic::div_mod::lemma_fundamental_div_mod_converse(
            d * scale - 1,
            scale,
            d - 1,
            scale - 1,
        );
        assert(step <= d - 1);
    }
    assert(1 <= step <= d);
    assert(m >= 1) by (nonlinear_arith)
        requires
            m == prefered_velocity || m == d * k,
            prefered_velocity >= 1,
            d >= 1,
            k >= 1,
    ;

    // In the cruise case the landing condition of the last clause is false.
    if prefered_velocity < exact {
        assert(m * tick <= d * scale - tick);
        assert(prefered_velocity * tick < d * scale);
    } else {
        assert(prefered_velocity * tick >= d * scale) by (nonlinear_arith)
            requires
                prefered_velocity >= d * k,
                scale == k * tick,
                tick > 0,
        ;
    }

    let out = spec_poll(
        direction,
        prefered_velocity,
        floor_leeway,
        velocity_epsilon,
        position,
        velocity,
        seq![f],
        false,
        tick_millis,
    );
    assert(out.0 == v);
    let next = spec_plant_step(position, v, tick);
    if sd >= 0 {
        assert(v == m);
        assert(next == position + step);
        assert(FLOOR_SCALE * f - next == d - step);
    } else {
        assert(v == -m);
        assert(v < 0);
        assert(next == position - step);
        assert(FLOOR_SCALE * f - next == -(d - step));
    }
    assert(vstd::math::abs(FLOOR_SCALE * f - next) == d - step);
}

/// While the car sits within the leeway of the single requested floor, the
/// controller reports it stopped there and commands zero velocity, and the
/// plant keeps it in place.
pub proof fn lemma_single_request_idle(
    prefered_velocity: int,
    floor_leeway: int,
    velocity_epsilon: int,
    tick_millis: int,
    f: i64,
    position: int,
    velocity: int,
    direction: Direction,
)
    requires
        0 < tick_millis,
        vstd::math::abs(FLOOR_SCALE * f - position) <= floor_leeway,
    ensures
        spec_poll(
            direction,
            prefered_velocity,
            floor_leeway,
            velocity_epsilon,
            position,
            velocity,
            seq![f],
            false,
            tick_millis,
        ) == (0int, true, direction),
        spec_plant_step(position, 0, tick_millis) == position,
{
    lemma_single_request_candidate(direction, position, floor_leeway, f);
    assert(0 * tick_millis == 0);
    vstd::arithmetic::div_mod::lemma_div_of0(FLOOR_SCALE as int);
}

/// Whether, after `n` rounds of the closed loop on the single requested
/// floor `f`, the car stands within the leeway of `f` and the next poll
/// commands zero velocity and reports it stopped at its floor.
pub open spec fn spec_single_request_arrived(
    prefered_velocity: int,
    floor_leeway: int,
    velocity_epsilon: int,
    tick_millis: int,
    f: i64,
    position: int,
    velocity: int,
    direction: Direction,
    n: nat,
) -> bool {
    let s = spec_single_request_run(
        prefered_velocity,
        floor_leeway,
        velocity_epsilon,
        tick_millis,
        f,
        position,
        velocity,
        direction,
        n,
    );
    &&& vstd::math::abs(FLOOR_SCALE * f - s.0) <= floor_leeway
    &&& spec_poll(
        s.2,
        prefered_velocity,
        floor_leeway,
        velocity_epsilon,
        s.0,
        s.1,
        seq![f],
        false,
        tick_millis,
    ) == (0int, true, s.2)
}

/// For any single requested floor and any starting state, repeatedly polling
/// at a fixed tick brings the car within the leeway of that floor, after
/// which the controller reports it stopped there and commands zero velocity.
/// The tick must divide one second and the preferred velocity must cover at
/// least one position unit per tick.
pub proof fn lemma_single_request_converges(
    prefered_velocity: int,
    floor_leeway: int,
    velocity_epsilon: int,
    tick_millis: int,
    f: i64,
    position: int,
    velocity: int,
    direction: Direction,
)
    requires
        0 < prefered_velocity,
        0 <= floor_leeway,
        0 < tick_millis <= FLOOR_SCALE,
        (FLOOR_SCALE as int) % tick_millis == 0,
        prefered_velocity * tick_millis >= FLOOR_SCALE,
    ensures
        exists|n: nat|
            #[trigger] spec_single_request_arrived(
                prefered_velocity,
                floor_leeway,
                velocity_epsilon,
                tick_millis,
                f,
                position,
                velocity,
                direction,
                n,
            ),
    decreases vstd::math::abs(FLOOR_SCALE * f - position),
{
    if vstd::math::abs(FLOOR_SCALE * f - position) <= floor_leeway {
        lemma_single_request_idle(
            prefered_velocity,
            floor_leeway,
            velocity_epsilon,
            tick_millis,
            f,
            position,
            velocity,
            direction,
        );
        assert(spec_single_request_arrived(
            prefered_velocity,
            floor_leeway,
            velocity_epsilon,
            tick_millis,
            f,
            position,
            velocity,
            direction,
            0,
        ));
    } else {
        lemma_single_request_step(
            prefered_velocity,
            floor_leeway,
            velocity_epsilon,
            tick_millis,
            f,
            position,
            velocity,
            direction,
        );
        let out = spec_poll(
            direction,
            prefered_velocity,
            floor_leeway,
            velocity_epsilon,
            position,
            velocity,
            seq![f],
            false,
            tick_millis,
        );
        let next = spec_plant_step(position, out.0, tick_millis);
        lemma_single_request_converges(
            prefered_velocity,
            floor_leeway,
            velocity_epsilon,
            tick_millis,
            f,
            next,
            out.0,
            out.2,
        );
        let n1 = choose|n: nat|
            #[trigger] spec_single_request_arrived(
                prefered_velocity,
                floor_leeway,
                velocity_epsilon,
                tick_millis,
                f,
                next,
                out.0,
                out.2,
                n,
            );
        assert(spec_single_request_run(
            prefered_velocity,
            floor_leeway,
            velocity_epsilon,
            tick_millis,
            f,
            position,
            velocity,
            direction,
            n1 + 1,
        ) == spec_single_request_run(
            prefered_velocity,
            floor_leeway,
            velocity_epsilon,
            tick_millis,
            f,
            next,
            out.0,
            out.2,
            n1,
        ));
        assert(spec_single_request_arrived(
            prefered_velocity,
            floor_leeway,
            velocity_epsilon,
            tick_millis,
            f,
            position,
            velocity,
            direction,
            n1 + 1,
        ));
    }
}

/// The direction lock never skips a request ahead of it: with direction up
/// and some requested floor `g` at or above the current floor, a selected
/// target lies between the current floor and `g`, and the selection only
/// comes back empty when the car already stands within the leeway of a
/// requested floor that is itself no farther than `g`. A shortest-distance
/// rule would not have this property; it is what bounds the stops before any
/// request is served.
pub proof fn lemma_direction_lock_no_skip_up(
    position: int,
    floor_leeway: int,
    floors: Seq<i64>,
    g: i64,
)
    requires
        floors.contains(g),
        g >= spec_round_to_floor(position),
    ensures
        ({
            let r = spec_next_target(Direction::Up, position, floor_leeway, floors);
            match r.1 {
                Some(t) => spec_round_to_floor(position) <= t <= g,
                None => exists|t: i64|
                    #[trigger] floors.contains(t) && spec_round_to_floor(position) <= t <= g
                        && vstd::math::abs(FLOOR_SCALE * t - position) <= floor_leeway,
            }
        }),
{
    let cf = spec_round_to_floor(position);
    lemma_nearest_above_characterizes(floors, cf);
    match spec_nearest_above(floors, cf) {
        Some(t0) => {
            assert(t0 <= g);
        },
        None => {
            let i = choose|i: int| 0 <= i < floors.len() && floors[i] == g;
            assert(floors[i] >= cf);
        },
    }
}

/// The mirror image of `lemma_direction_lock_no_skip_up` for direction down.
pub proof fn lemma_direction_lock_no_skip_down(
    position: int,
    floor_leeway: int,
    floors: Seq<i64>,
    g: i64,
)
    requires
        floors.contains(g),
        g <= spec_round_to_floor(position),
    ensures
        ({
            let r = spec_next_target(Direction::Down, position, floor_leeway, floors);
            match r.1 {
                Some(t) => g <= t <= spec_round_to_floor(position),
                None => exists|t: i64|
                    #[trigger] floors.contains(t) && g <= t <= spec_round_to_floor(position)
                        && vstd::math::abs(FLOOR_SCALE * t - position) <= floor_leeway,
            }
        }),
{
    let cf = spec_round_to_floor(position);
    lemma_nearest_below_characterizes(floors, cf);
    match spec_nearest_below(floors, cf) {
        Some(t0) => {
            assert(t0 >= g);
        },
        None => {
            let i = choose|i: int| 0 <= i < floors.len() && floors[i] == g;
            assert(floors[i] <= cf);
        },
    }
}

} // verus!
