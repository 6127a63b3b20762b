//! The force one particle feels from another.
//!
//! The force acts along the line between the two particles. Its magnitude
//! depends on their distance `r` and on three coefficients of their pair of
//! types: beyond `max_r` there is none; between `min_r` and `max_r` it follows
//! the attraction coefficient, either flat or shaped like a tent that is zero
//! at both radii; from `min_r` inwards a smooth repulsion takes over.

use crate::fixed::{
    clamp, in_range, lemma_product_bound, lemma_square_grows, magnitude, over, product, ratio, root,
    square_root, times, wide_product, LIMIT, ONE,
};
use vstd::prelude::*;

verus! {

/// The radius of a particle.
pub const RADIUS: i64 = 5_000_000;

/// The diameter of a particle: no two types interact normally any nearer.
pub const DIAMETER: i64 = 10_000_000;

/// Softens the repulsion so that it stays finite at distance zero.
pub const R_SMOOTH: i64 = 2_000_000;

/// The square of the distance (a tenth of a unit) below which two particles
/// ignore each other.
pub const NEAR: i128 = 10_000_000_000;

/// The largest magnitude a displacement between two stored positions can have.
pub const REACH: i64 = 3_000_000_000_000;

/// How far `to` lies from `from` along one axis. On a torus of the given
/// extent the shorter way round is taken.
pub open spec fn displacement(from: int, to: int, extent: int, wrap: bool) -> int {
    let d = to - from;
    if wrap && 2 * d > extent {
        d - extent
    } else if wrap && 2 * d < -extent {
        d + extent
    } else {
        d
    }
}

/// The tent profile: `attract` scaled by a factor that is zero at `min_r` and
/// at `max_r` and one halfway between them.
pub open spec fn tent(attract: int, min_r: int, max_r: int, r: int) -> int {
    times(attract, ONE - over(magnitude(2 * r - (max_r + min_r)), max_r - min_r))
}

/// The repulsion at a distance `r` within `min_r`: zero at `min_r`, negative
/// inside it, finite even at `r == 0`.
pub open spec fn repulsion(min_r: int, r: int) -> int {
    times(
        times(R_SMOOTH as int, min_r),
        over(ONE as int, min_r + R_SMOOTH) - over(ONE as int, r + R_SMOOTH),
    )
}

/// The magnitude of the force at distance `r`, positive towards the other
/// particle.
pub open spec fn force(attract: int, min_r: int, max_r: int, r: int, flat: bool) -> int {
    if r > min_r {
        if flat {
            clamp(attract)
        } else {
            tent(attract, min_r, max_r, r)
        }
    } else {
        repulsion(min_r, r)
    }
}

/// The pair is out of reach of the force, or too close for it to be defined.
pub open spec fn ignored(dx: int, dy: int, max_r: int) -> bool {
    dx * dx + dy * dy > max_r * max_r || dx * dx + dy * dy < NEAR
}

/// The change of velocity that a particle gets from another one displaced by
/// `(dx, dy)`.
pub open spec fn interaction(
    dx: int,
    dy: int,
    attract: int,
    min_r: int,
    max_r: int,
    flat: bool,
) -> (int, int) {
    if ignored(dx, dy, max_r) {
        (0, 0)
    } else {
        let r = root(dx * dx + dy * dy);
        let f = force(attract, min_r, max_r, r, flat);
        (times(f, over(dx, r)), times(f, over(dy, r)))
    }
}

/// Without the flat option the force vanishes at the inner and at the outer
/// radius, and is the whole attraction coefficient halfway between them.
pub proof fn lemma_tent_profile(attract: int, min_r: int, max_r: int, middle: int)
    requires
        in_range(attract),
        min_r <= max_r,
    ensures
        force(attract, min_r, max_r, min_r, false) == 0,
        force(attract, min_r, max_r, max_r, false) == 0,
        min_r < max_r && 2 * middle == min_r + max_r ==> force(
            attract,
            min_r,
            max_r,
            middle,
            false,
        ) == attract,
{
    let push = times(R_SMOOTH as int, min_r);
    assert(push * 0 == 0);
    assert(attract * 0 == 0);
    if min_r < max_r {
        let width = max_r - min_r;
        assert((width * ONE) / width == ONE) by (nonlinear_arith)
            requires
                width > 0,
        ;
        assert(width * ONE >= 0) by (nonlinear_arith)
            requires
                width > 0,
        ;
        assert(0int * ONE == 0);
        assert(0int / width == 0) by (nonlinear_arith)
            requires
                width > 0,
        ;
        assert((attract * ONE) / (ONE as int) == attract) by (nonlinear_arith);
        assert(((-attract) * ONE) / (ONE as int) == -attract) by (nonlinear_arith);
        assert(-(attract * ONE) == (-attract) * ONE) by (nonlinear_arith);
    }
}

/// Within the inner radius the force never pulls: it is zero or pushes the
/// particle away.
pub proof fn lemma_repulsion_pushes(min_r: int, r: int)
    requires
        0 <= r <= min_r,
    ensures
        repulsion(min_r, r) <= 0,
{
    let far = min_r + R_SMOOTH;
    let near = r + R_SMOOTH;
    let unit = ONE * ONE;
    vstd::arithmetic::div_mod::lemma_div_is_ordered_by_denominator(unit, near, far);
    vstd::arithmetic::div_mod::lemma_div_pos_is_pos(unit, far);
    let gap = over(ONE as int, far) - over(ONE as int, near);
    assert(gap <= 0);
    let push = times(R_SMOOTH as int, min_r);
    assert(R_SMOOTH * min_r >= 0) by (nonlinear_arith)
        requires
            min_r >= 0,
    ;
    vstd::arithmetic::div_mod::lemma_div_pos_is_pos(R_SMOOTH * min_r, ONE as int);
    assert(push >= 0);
    assert(push * gap <= 0) by (nonlinear_arith)
        requires
            push >= 0,
            gap <= 0,
    ;
    if push * gap < 0 {
        vstd::arithmetic::div_mod::lemma_div_pos_is_pos(-(push * gap), ONE as int);
    }
}

/// Computes [`displacement`].
pub fn axis_displacement(from: i64, to: i64, extent: i64, wrap: bool) -> (d: i64)
    requires
        in_range(from as int),
        in_range(to as int),
        in_range(extent as int),
    ensures
        d == displacement(from as int, to as int, extent as int, wrap),
        -REACH <= d <= REACH,
{
    let d: i64 = to - from;
    if wrap && 2 * d > extent {
        d - extent
    } else if wrap && 2 * d < -extent {
        d + extent
    } else {
        d
    }
}

/// Computes [`force`] for a distance within the outer radius.
pub fn force_magnitude(attract: i64, min_r: i64, max_r: i64, r: i64, flat: bool) -> (f: i64)
    requires
        in_range(attract as int),
        in_range(min_r as int),
        in_range(max_r as int),
        0 <= r <= max_r,
    ensures
        f == force(attract as int, min_r as int, max_r as int, r as int, flat),
        in_range(f as int),
{
    if r > min_r {
        if flat {
            attract
        } else {
            let offset: i64 = 2 * r - (max_r + min_r);
            let share: i64 = ratio(
                if offset < 0 {
                    -offset
                } else {
                    offset
                },
                max_r - min_r,
            );
            product(attract, ONE - share)
        }
    } else {
        let outer: i64 = ratio(ONE, min_r + R_SMOOTH);
        let inner: i64 = ratio(ONE, r + R_SMOOTH);
        product(product(R_SMOOTH, min_r), outer - inner)
    }
}

/// Computes [`interaction`] for a displacement between two stored positions.
pub fn pair_interaction(dx: i64, dy: i64, attract: i64, min_r: i64, max_r: i64, flat: bool) -> (f:
    (i64, i64))
    requires
        -REACH <= dx <= REACH,
        -REACH <= dy <= REACH,
        in_range(attract as int),
        in_range(min_r as int),
        0 <= max_r <= LIMIT,
    ensures
        f.0 == interaction(
            dx as int,
            dy as int,
            attract as int,
            min_r as int,
            max_r as int,
            flat,
        ).0,
        f.1 == interaction(
            dx as int,
            dy as int,
            attract as int,
            min_r as int,
            max_r as int,
            flat,
        ).1,
        in_range(f.0 as int),
        in_range(f.1 as int),
{
    proof {
        lemma_product_bound(dx as int, dx as int, REACH as int);
        lemma_product_bound(dy as int, dy as int, REACH as int);
    }
    let d2: i128 = wide_product(dx as i128, dx as i128) + wide_product(dy as i128, dy as i128);
    let reach2: i128 = wide_product(max_r as i128, max_r as i128);
    if d2 > reach2 || d2 < NEAR {
        return (0, 0);
    }
    let r: i64 = square_root(d2, max_r);
    proof {
        if r < 100_000 {
            lemma_square_grows(r as int, 100_000);
            assert((r + 1) * (r + 1) <= 100_000 * 100_000) by (nonlinear_arith)
                requires
                    0 <= r + 1 <= 100_000,
            ;
        }
    }
    let f: i64 = force_magnitude(attract, min_r, max_r, r, flat);
    (product(f, ratio(dx, r)), product(f, ratio(dy, r)))
}

} // verus!
