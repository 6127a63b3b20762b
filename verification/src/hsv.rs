//! Colours, and how a hue becomes one.

use crate::fixed::{in_range, product, times, LIMIT, ONE};
use vstd::prelude::*;

verus! {

/// A colour with an opacity; a channel at `ONE` is at full strength.
#[derive(Debug, Clone, Copy, PartialEq, Eq)]
pub struct Color {
    pub r: i64,
    pub g: i64,
    pub b: i64,
    pub a: i64,
}

impl Color {
    /// Opaque white.
    pub open spec fn white() -> Color {
        Color { r: ONE, g: ONE, b: ONE, a: ONE }
    }

    /// Opaque white.
    pub fn new_white() -> (c: Color)
        ensures
            c == Color::white(),
    {
        Color { r: ONE, g: ONE, b: ONE, a: ONE }
    }
}

/// The sector of the colour circle in which the hue `h` lies: the whole part
/// of six times the hue.
pub open spec fn sector(h: int) -> int {
    (6 * h) / (ONE as int)
}

/// How far into its sector the hue `h` lies: what is left of six times the
/// hue beside its whole part, from 0 up to but not including `ONE`.
pub open spec fn offset(h: int) -> int {
    6 * h - sector(h) * ONE
}

/// The colour of hue `h`, saturation `s` and value `v`; the hue goes once
/// round the circle from 0 to `ONE`.
///
/// The circle is cut into six sectors that begin at red, yellow, green, cyan,
/// blue and magenta. In each sector one channel holds `v`, one holds what the
/// saturation leaves of `v`, and the third goes from the one to the other as
/// the hue goes through the sector.
pub open spec fn hsv(h: int, s: int, v: int) -> Color {
    let f = offset(h);
    let p = times(v, ONE - s);
    let q = times(v, ONE - times(f, s));
    let t = times(v, ONE - times(ONE - f, s));
    let (r, g, b) = if sector(h) % 6 == 0 {
        (v, t, p)
    } else if sector(h) % 6 == 1 {
        (q, v, p)
    } else if sector(h) % 6 == 2 {
        (p, v, t)
    } else if sector(h) % 6 == 3 {
        (p, q, v)
    } else if sector(h) % 6 == 4 {
        (t, p, v)
    } else {
        (v, p, q)
    };
    Color { r: r as i64, g: g as i64, b: b as i64, a: ONE }
}

/// A share of `v` is the larger, the larger the share; the whole of it is
/// `v`.
pub proof fn lemma_share_grows(v: int, low: int, high: int)
    requires
        0 <= v <= ONE,
        0 <= low <= high <= ONE,
    ensures
        0 <= times(v, low) <= times(v, high) <= v,
        times(v, ONE as int) == v,
{
    assert(0 <= v * low <= v * high && v * high <= v * ONE) by (nonlinear_arith)
        requires
            0 <= v,
            0 <= low <= high <= ONE,
    ;
    assert((v * ONE) / (ONE as int) == v) by (nonlinear_arith);
    vstd::arithmetic::div_mod::lemma_div_is_ordered(v * low, v * high, ONE as int);
    vstd::arithmetic::div_mod::lemma_div_is_ordered(v * high, v * ONE, ONE as int);
    vstd::arithmetic::div_mod::lemma_div_pos_is_pos(v * low, ONE as int);
}

/// For a saturation and a value between 0 and `ONE`, the colour is opaque,
/// one of its channels holds the value, one holds what the saturation leaves
/// of the value, and none lies outside these two.
pub proof fn lemma_channels(h: int, s: int, v: int)
    requires
        0 <= h,
        0 <= s <= ONE,
        0 <= v <= ONE,
    ensures
        ({
            let c = hsv(h, s, v);
            let least = times(v, ONE - s);
            &&& c.a == ONE
            &&& least <= c.r <= v
            &&& least <= c.g <= v
            &&& least <= c.b <= v
            &&& c.r == v || c.g == v || c.b == v
            &&& c.r == least || c.g == least || c.b == least
        }),
{
    let f = offset(h);
    assert(0 <= f < ONE);
    assert(0 <= sector(h) % 6 < 6);
    lemma_share_grows(s, f, ONE as int);
    lemma_share_grows(s, ONE - f, ONE as int);
    assert(times(f, s) == times(s, f)) by {
        assert(f * s == s * f) by (nonlinear_arith);
    }
    assert(times(ONE - f, s) == times(s, ONE - f)) by {
        assert((ONE - f) * s == s * (ONE - f)) by (nonlinear_arith);
    }
    lemma_share_grows(v, ONE - s, ONE - times(f, s));
    lemma_share_grows(v, ONE - s, ONE - times(ONE - f, s));
}

/// Colours that can be made from hue, saturation and value.
pub trait HSV: Sized {
    /// What [`HSV::from_hsv`] returns.
    spec fn of_hsv(h: int, s: int, v: int) -> Self;

    /// The colour of a hue `h` that is not negative, with saturation `s` and
    /// value `v`.
    fn from_hsv(h: i64, s: i64, v: i64) -> (c: Self)
        requires
            0 <= h <= LIMIT,
            in_range(s as int),
            in_range(v as int),
        ensures
            c == Self::of_hsv(h as int, s as int, v as int),
    ;
}

impl HSV for Color {
    open spec fn of_hsv(h: int, s: int, v: int) -> Color {
        hsv(h, s, v)
    }

    fn from_hsv(h: i64, s: i64, v: i64) -> (c: Color) {
        let i: i64 = 6 * h / ONE;
        let f: i64 = 6 * h - i * ONE;
        let p: i64 = product(v, ONE - s);
        let q: i64 = product(v, ONE - product(f, s));
        let t: i64 = product(v, ONE - product(ONE - f, s));
        let (r, g, b) = match i % 6 {
            0 => (v, t, p),
            1 => (q, v, p),
            2 => (p, v, t),
            3 => (p, q, v),
            4 => (t, p, v),
            _ => (v, p, q),
        };
        Color { r, g, b, a: ONE }
    }
}

} // verus!
