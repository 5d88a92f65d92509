//! Queries over the caller-owned list of requested floors.
//!
//! The list is read left to right; duplicates are tolerated and never
//! deduplicated. Where two entries are equally near, the earliest entry in
//! the list wins, so every query is deterministic.

use vstd::prelude::*;

use crate::units::Floor;
use crate::units::MAX_ABS_FLOOR;
use crate::units::abs_i64;

verus! {

/// The smallest requested floor at or above `current`, scanning `floors` left
/// to right; `None` when every entry lies below `current`.
pub open spec fn spec_nearest_above(floors: Seq<i64>, current: int) -> Option<i64>
    decreases floors.len(),
{
    if floors.len() == 0 {
        None
    } else {
        let rest = spec_nearest_above(floors.drop_last(), current);
        let f = floors.last();
        if f >= current {
            match rest {
                None => Some(f),
                Some(g) => if f < g {
                    Some(f)
                } else {
                    Some(g)
                },
            }
        } else {
            rest
        }
    }
}

/// The largest requested floor at or below `current`; `None` when every entry
/// lies above `current`.
pub open spec fn spec_nearest_below(floors: Seq<i64>, current: int) -> Option<i64>
    decreases floors.len(),
{
    if floors.len() == 0 {
        None
    } else {
        let rest = spec_nearest_below(floors.drop_last(), current);
        let f = floors.last();
        if f <= current {
            match rest {
                None => Some(f),
                Some(g) => if f > g {
                    Some(f)
                } else {
                    Some(g)
                },
            }
        } else {
            rest
        }
    }
}

/// The requested floor nearest to `current` in either direction; on a tie the
/// earliest entry in the list wins. `None` only when the list is empty.
pub open spec fn spec_nearest_any(floors: Seq<i64>, current: int) -> Option<i64>
    decreases floors.len(),
{
    if floors.len() == 0 {
        None
    } else {
        let rest = spec_nearest_any(floors.drop_last(), current);
        let f = floors.last();
        match rest {
            None => Some(f),
            Some(g) => if vstd::math::abs(current - f) < vstd::math::abs(current - g) {
                Some(f)
            } else {
                Some(g)
            },
        }
    }
}

/// The result of `spec_nearest_above` is a requested floor at or above
/// `current`, no requested floor at or above `current` is smaller, and the
/// query comes back empty only when every entry lies below `current`.
pub proof fn lemma_nearest_above_characterizes(floors: Seq<i64>, current: int)
    ensures
        match spec_nearest_above(floors, current) {
            Some(f) => floors.contains(f) && f >= current && forall|i: int|
                0 <= i < floors.len() && floors[i] >= current ==> f <= floors[i],
            None => forall|i: int| 0 <= i < floors.len() ==> floors[i] < current,
        },
    decreases floors.len(),
{
    if floors.len() > 0 {
        lemma_nearest_above_characterizes(floors.drop_last(), current);
        assert forall|g: i64| floors.drop_last().contains(g) implies floors.contains(g) by {
            let i = choose|i: int|
                0 <= i < floors.drop_last().len() && floors.drop_last()[i] == g;
            assert(floors[i] == g);
        }
        assert(floors.contains(floors.last()));
        assert forall|i: int|
            0 <= i < floors.len() && i < floors.len() - 1 implies floors.drop_last()[i] == floors[i]
        by {}
    }
}

/// The mirror image of `lemma_nearest_above_characterizes` for the search at
/// or below `current`.
pub proof fn lemma_nearest_below_characterizes(floors: Seq<i64>, current: int)
    ensures
        match spec_nearest_below(floors, current) {
            Some(f) => floors.contains(f) && f <= current && forall|i: int|
                0 <= i < floors.len() && floors[i] <= current ==> f >= floors[i],
            None => forall|i: int| 0 <= i < floors.len() ==> floors[i] > current,
        },
    decreases floors.len(),
{
    if floors.len() > 0 {
        lemma_nearest_below_characterizes(floors.drop_last(), current);
        assert forall|g: i64| floors.drop_last().contains(g) implies floors.contains(g) by {
            let i = choose|i: int|
                0 <= i < floors.drop_last().len() && floors.drop_last()[i] == g;
            assert(floors[i] == g);
        }
        assert(floors.contains(floors.last()));
        assert forall|i: int|
            0 <= i < floors.len() && i < floors.len() - 1 implies floors.drop_last()[i] == floors[i]
        by {}
    }
}

/// The undirected search returns a requested floor of least absolute distance
/// to `current`, and comes back empty only on an empty list.
pub proof fn lemma_nearest_any_characterizes(floors: Seq<i64>, current: int)
    ensures
        match spec_nearest_any(floors, current) {
            Some(f) => floors.contains(f) && forall|i: int|
                0 <= i < floors.len() ==> vstd::math::abs(current - f) <= vstd::math::abs(
                    current - floors[i],
                ),
            None => floors.len() == 0,
        },
    decreases floors.len(),
{
    if floors.len() > 0 {
        lemma_nearest_any_characterizes(floors.drop_last(), current);
        assert forall|g: i64| floors.drop_last().contains(g) implies floors.contains(g) by {
            let i = choose|i: int|
                0 <= i < floors.drop_last().len() && floors.drop_last()[i] == g;
            assert(floors[i] == g);
        }
        assert(floors.contains(floors.last()));
        assert forall|i: int|
            0 <= i < floors.len() && i < floors.len() - 1 implies floors.drop_last()[i] == floors[i]
        by {}
    }
}

/// The smallest entry of `floors_to_stop_at` at or above `current_floor`, or
/// `None` when no entry is at or above it.
pub fn nearest_floor_above(current_floor: Floor, floors_to_stop_at: &[Floor]) -> (r: Option<Floor>)
    ensures
        r == spec_nearest_above(floors_to_stop_at@, current_floor as int),
{
    let mut best: Option<Floor> = None;
    let mut i: usize = 0;
    while i < floors_to_stop_at.len()
        invariant
            i <= floors_to_stop_at@.len(),
            best == spec_nearest_above(floors_to_stop_at@.take(i as int), current_floor as int),
        decreases floors_to_stop_at@.len() - i,
    {
        let f = floors_to_stop_at[i];
        if f >= current_floor {
            best = match best {
                None => Some(f),
                Some(g) => if f < g {
                    Some(f)
                } else {
                    Some(g)
                },
            };
        }
        proof {
            let taken = floors_to_stop_at@.take(i + 1);
            assert(taken.drop_last() =~= floors_to_stop_at@.take(i as int));
            assert(taken.last() == floors_to_stop_at@[i as int]);
        }
        i = i + 1;
    }
    proof {
        assert(floors_to_stop_at@.take(floors_to_stop_at@.len() as int) =~= floors_to_stop_at@);
    }
    best
}

/// The largest entry of `floors_to_stop_at` at or below `current_floor`, or
/// `None` when no entry is at or below it.
pub fn nearest_floor_below(current_floor: Floor, floors_to_stop_at: &[Floor]) -> (r: Option<Floor>)
    ensures
        r == spec_nearest_below(floors_to_stop_at@, current_floor as int),
{
    let mut best: Option<Floor> = None;
    let mut i: usize = 0;
    while i < floors_to_stop_at.len()
        invariant
            i <= floors_to_stop_at@.len(),
            best == spec_nearest_below(floors_to_stop_at@.take(i as int), current_floor as int),
        decreases floors_to_stop_at@.len() - i,
    {
        let f = floors_to_stop_at[i];
        if f <= current_floor {
            best = match best {
                None => Some(f),
                Some(g) => if f > g {
                    Some(f)
                } else {
                    Some(g)
                },
            };
        }
        proof {
            let taken = floors_to_stop_at@.take(i + 1);
            assert(taken.drop_last() =~= floors_to_stop_at@.take(i as int));
            assert(taken.last() == floors_to_stop_at@[i as int]);
        }
        i = i + 1;
    }
    proof {
        assert(floors_to_stop_at@.take(floors_to_stop_at@.len() as int) =~= floors_to_stop_at@);
    }
    best
}

/// The entry of `floors_to_stop_at` nearest to `current_floor` in either
/// direction, the earliest entry winning ties, or `None` on an empty list.
pub fn nearest_floor(current_floor: Floor, floors_to_stop_at: &[Floor]) -> (r: Option<Floor>)
    requires
        -MAX_ABS_FLOOR <= current_floor <= MAX_ABS_FLOOR,
        forall|i: int|
            0 <= i < floors_to_stop_at@.len() ==> -MAX_ABS_FLOOR <= #[trigger] floors_to_stop_at@[i]
                && floors_to_stop_at@[i] <= MAX_ABS_FLOOR,
    ensures
        r == spec_nearest_any(floors_to_stop_at@, current_floor as int),
{
    let mut best: Option<Floor> = None;
    let mut i: usize = 0;
    while i < floors_to_stop_at.len()
        invariant
            i <= floors_to_stop_at@.len(),
            -MAX_ABS_FLOOR <= current_floor <= MAX_ABS_FLOOR,
            forall|j: int|
                0 <= j < floors_to_stop_at@.len() ==> -MAX_ABS_FLOOR <= #[trigger] floors_to_stop_at@[j]
                    && floors_to_stop_at@[j] <= MAX_ABS_FLOOR,
            best == spec_nearest_any(floors_to_stop_at@.take(i as int), current_floor as int),
            match best {
                Some(g) => floors_to_stop_at@.take(i as int).contains(g),
                None => i == 0,
            },
        decreases floors_to_stop_at@.len() - i,
    {
        let f = floors_to_stop_at[i];
        best = match best {
            None => Some(f),
            Some(g) => if abs_i64(current_floor - f) < abs_i64(current_floor - g) {
                Some(f)
            } else {
                Some(g)
            },
        };
        proof {
            let taken = floors_to_stop_at@.take(i + 1);
            assert(taken.drop_last() =~= floors_to_stop_at@.take(i as int));
            assert(taken.last() == floors_to_stop_at@[i as int]);
            match best {
                Some(g) => {
                    if g == floors_to_stop_at@[i as int] {
                        assert(taken[i as int] == g);
                    } else {
                        let j = choose|j: int|
                            0 <= j < floors_to_stop_at@.take(i as int).len()
                                && floors_to_stop_at@.take(i as int)[j] == g;
                        assert(taken[j] == g);
                    }
                },
                None => {},
            }
        }
        i = i + 1;
    }
    proof {
        assert(floors_to_stop_at@.take(floors_to_stop_at@.len() as int) =~= floors_to_stop_at@);
    }
    best
}

/// Removes the earliest entry equal to `floor` from `floors`, leaving the
/// order of the remaining entries unchanged; a list without such an entry is
/// left as it is.
pub fn remove_floor(floors: &mut Vec<Floor>, floor: Floor)
    ensures
        old(floors)@.contains(floor) ==> exists|i: int|
            0 <= i < old(floors)@.len() && old(floors)@[i] == floor && (forall|j: int|
                0 <= j < i ==> old(floors)@[j] != floor) && final(floors)@ == old(floors)@.remove(i),
        !old(floors)@.contains(floor) ==> final(floors)@ == old(floors)@,
{
    let n = floors.len();
    let mut i: usize = 0;
    while i < n
        invariant
            n == floors@.len(),
            i <= n,
            floors@ == old(floors)@,
            forall|j: int| 0 <= j < i ==> floors@[j] != floor,
        decreases n - i,
    {
        if floors[i] == floor {
            floors.remove(i);
            proof {
                assert(old(floors)@[i as int] == floor);
            }
            return ;
        }
        i = i + 1;
    }
}

} // verus!
