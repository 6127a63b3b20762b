//! How a particle moves along one axis in one step, and what happens to it
//! at the edge of the world.

use crate::fixed::{difference, in_range, minus, plus, product, sum, times, ONE};
use crate::force::DIAMETER;
use vstd::prelude::*;

verus! {

/// Position and velocity on one axis after a step, for a particle at `x` that
/// moves with velocity `v` in a world from 0 to `extent`.
///
/// The particle first moves by `v`, and friction takes its share of the
/// velocity. On a torus a particle that has left the world enters it again
/// from the other side. Otherwise walls stand one diameter inside the world:
/// a particle that has reached one is put on it and turned round.
pub open spec fn advance(x: int, v: int, extent: int, friction: int, wrap: bool) -> (int, int) {
    let moved = plus(x, v);
    let damped = times(v, ONE - friction);
    if wrap {
        if moved < 0 {
            (plus(moved, extent), damped)
        } else if moved >= extent {
            (minus(moved, extent), damped)
        } else {
            (moved, damped)
        }
    } else if moved <= DIAMETER {
        (DIAMETER as int, -damped)
    } else if moved >= minus(extent, DIAMETER as int) {
        (minus(extent, DIAMETER as int), -damped)
    } else {
        (moved, damped)
    }
}

/// Between walls, a particle is one diameter or more away from either edge
/// of a world that has room for it.
pub proof fn lemma_walls_contain(x: int, v: int, extent: int, friction: int)
    requires
        in_range(extent),
        2 * DIAMETER <= extent,
    ensures
        DIAMETER <= advance(x, v, extent, friction, false).0 <= extent - DIAMETER,
{
}

/// On a torus a particle is in the world after a step exactly if its move
/// has taken it less than one extent beyond either edge.
pub proof fn lemma_torus_contains(x: int, v: int, extent: int, friction: int)
    requires
        in_range(extent),
        0 < extent,
    ensures
        0 <= advance(x, v, extent, friction, true).0 < extent <==> -extent <= plus(x, v) < 2
            * extent,
{
}

/// Computes [`advance`].
pub fn advance_axis(x: i64, v: i64, extent: i64, friction: i64, wrap: bool) -> (after: (i64, i64))
    requires
        in_range(x as int),
        in_range(v as int),
        in_range(extent as int),
        in_range(friction as int),
    ensures
        after.0 == advance(x as int, v as int, extent as int, friction as int, wrap).0,
        after.1 == advance(x as int, v as int, extent as int, friction as int, wrap).1,
        in_range(after.0 as int),
        in_range(after.1 as int),
{
    let moved: i64 = sum(x, v);
    let damped: i64 = product(v, ONE - friction);
    if wrap {
        if moved < 0 {
            (sum(moved, extent), damped)
        } else if moved >= extent {
            (difference(moved, extent), damped)
        } else {
            (moved, damped)
        }
    } else if moved <= DIAMETER {
        (DIAMETER, -damped)
    } else if moved >= difference(extent, DIAMETER) {
        (difference(extent, DIAMETER), -damped)
    } else {
        (moved, damped)
    }
}

} // verus!
