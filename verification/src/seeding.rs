//! How random variates become types and particles.
//!
//! Drawing the variates and using them are kept apart: the functions here take
//! the variates as plain values and say exactly what they make of them.

use crate::fixed::{
    clamp, in_range, larger, magnitude, plus, product, quotient, saturate, sum, times, ONE,
};
use crate::force::DIAMETER;
use crate::hsv::{hsv, lemma_channels, Color, HSV};
use crate::particle::Particle;
use crate::particle_types::{lemma_cells, ParticleTypes, TypeTable};
use vstd::prelude::*;

verus! {

/// One half.
pub const HALF: i64 = 500_000;

/// One quarter.
pub const QUARTER: i64 = 250_000;

/// One fifth.
pub const FIFTH: i64 = 200_000;

/// The variates from which the coefficients of the types are made: three per
/// ordered pair of types, each laid out row by row like the matrices.
#[derive(Debug)]
pub struct TypeVariates {
    /// Attraction coefficients, normally distributed.
    pub attract: Vec<i64>,
    /// Inner radii, uniformly distributed.
    pub min_r: Vec<i64>,
    /// Outer radii, uniformly distributed.
    pub max_r: Vec<i64>,
}

/// The mathematical content of a [`TypeVariates`].
pub struct TypeDraws {
    pub attract: Seq<i64>,
    pub min_r: Seq<i64>,
    pub max_r: Seq<i64>,
}

impl View for TypeVariates {
    type V = TypeDraws;

    open spec fn view(&self) -> TypeDraws {
        TypeDraws { attract: self.attract@, min_r: self.min_r@, max_r: self.max_r@ }
    }
}

impl TypeDraws {
    /// There are three variates for each ordered pair of `size` types.
    pub open spec fn fits(self, size: nat) -> bool {
        &&& self.attract.len() == size * size
        &&& self.min_r.len() == size * size
        &&& self.max_r.len() == size * size
    }
}

/// The variates from which one particle is made.
#[derive(Debug, Clone, Copy, PartialEq, Eq)]
pub struct ParticleVariate {
    /// The type of the particle.
    pub particle_type: usize,
    /// Where the particle lies across the middle half of the world, from 0
    /// to `ONE`, uniformly distributed.
    pub x: i64,
    /// The same, downwards.
    pub y: i64,
    /// A velocity, normally distributed with mean 0 and deviation 1.
    pub vx: i64,
    /// The same, downwards.
    pub vy: i64,
}

/// The cell whose variates decide the radii of the pair `(i, j)`.
///
/// The radii are the same for `(i, j)` and `(j, i)`. The types are gone
/// through row by row, and each pair sets the radii of both, so what stays is
/// what the later of the two sets: the one below the diagonal.
pub open spec fn ruling(size: int, i: int, j: int) -> int {
    if i >= j {
        i * size + j
    } else {
        j * size + i
    }
}

/// How strongly type `i` is drawn towards type `j`: what was drawn, but
/// towards its own kind never more than zero.
pub open spec fn seeded_attract(draws: TypeDraws, size: int, i: int, j: int) -> int {
    let a = clamp(draws.attract[i * size + j] as int);
    if i == j {
        -magnitude(a)
    } else {
        a
    }
}

/// The inner radius of the pair `(i, j)`: what was drawn but no less than a
/// diameter, and just that between particles of one type.
pub open spec fn seeded_min_r(draws: TypeDraws, size: int, i: int, j: int) -> int {
    if i == j {
        DIAMETER as int
    } else {
        larger(clamp(draws.min_r[ruling(size, i, j)] as int), DIAMETER as int)
    }
}

/// The outer radius of the pair `(i, j)`: what was drawn, but no less than
/// the inner radius.
pub open spec fn seeded_max_r(draws: TypeDraws, size: int, i: int, j: int) -> int {
    larger(clamp(draws.max_r[ruling(size, i, j)] as int), seeded_min_r(draws, size, i, j))
}

/// The colour of type `i` out of `size`: the hues go once round the circle,
/// fully saturated, and every other type is only half as bright.
pub open spec fn type_color(i: int, size: int) -> Color {
    hsv(
        quotient(i * ONE, size),
        ONE as int,
        if i % 2 == 0 {
            ONE / 2
        } else {
            ONE as int
        },
    )
}

/// The table of `size` types that the variates give.
pub open spec fn seeded(size: nat, draws: TypeDraws) -> TypeTable {
    TypeTable {
        colors: Seq::new(size, |i: int| type_color(i, size as int)),
        attract: Seq::new(
            size * size,
            |c: int|
                seeded_attract(draws, size as int, c / (size as int), c % (size as int)) as i64,
        ),
        min_r: Seq::new(
            size * size,
            |c: int| seeded_min_r(draws, size as int, c / (size as int), c % (size as int)) as i64,
        ),
        max_r: Seq::new(
            size * size,
            |c: int| seeded_max_r(draws, size as int, c / (size as int), c % (size as int)) as i64,
        ),
    }
}

impl TypeTable {
    /// The radii of a pair of types do not depend on the order of the two.
    pub open spec fn radii_symmetric(self) -> bool {
        forall|i: int, j: int|
            self.has(i, j) ==> #[trigger] self.min_r_at(i, j) == self.min_r_at(j, i)
                && #[trigger] self.max_r_at(i, j) == self.max_r_at(j, i)
    }

    /// No inner radius is larger than the outer radius of its pair, nor
    /// smaller than a diameter.
    pub open spec fn radii_ordered(self) -> bool {
        forall|i: int, j: int|
            self.has(i, j) ==> DIAMETER <= #[trigger] self.min_r_at(i, j) <= self.max_r_at(i, j)
    }

    /// Particles of one type keep a diameter apart and never attract each
    /// other.
    pub open spec fn self_repelling(self) -> bool {
        forall|i: int|
            0 <= i < self.size() ==> #[trigger] self.min_r_at(i, i) == DIAMETER
                && self.attract_at(i, i) <= 0
    }

    /// Every coefficient is a quantity the engine may store, and no outer
    /// radius is negative.
    pub open spec fn tame(self) -> bool {
        forall|c: int|
            0 <= c < self.size() * self.size() ==> in_range(#[trigger] self.attract[c] as int)
                && in_range(self.min_r[c] as int) && 0 <= self.max_r[c] && in_range(
                self.max_r[c] as int,
            )
    }
}

/// A cell of a matrix belongs to exactly one row and one column.
pub proof fn lemma_cell_coordinates(c: int, size: int)
    requires
        0 <= size,
        0 <= c < size * size,
    ensures
        0 <= c / size < size,
        0 <= c % size < size,
        (c / size) * size + c % size == c,
{
    assert(size > 0) by (nonlinear_arith)
        requires
            0 <= size,
            0 <= c < size * size,
    ;
    vstd::arithmetic::div_mod::lemma_fundamental_div_mod(c, size);
    vstd::arithmetic::div_mod::lemma_mod_bound(c, size);
    let q = c / size;
    let r = c % size;
    assert(c == size * q + r);
    assert(q >= 0) by (nonlinear_arith)
        requires
            c == size * q + r,
            0 <= r < size,
            0 <= c,
    ;
    assert(q < size) by (nonlinear_arith)
        requires
            c == size * q + r,
            0 <= r < size,
            c < size * size,
    ;
    assert(q * size == size * q) by (nonlinear_arith);
}

/// The pair of row `i` and column `j` lies in cell `i * size + j`.
pub proof fn lemma_cell_of_pair(size: int, i: int, j: int)
    requires
        0 <= i < size,
        0 <= j < size,
    ensures
        (i * size + j) / size == i,
        (i * size + j) % size == j,
{
    lemma_cells(size, i, j, i, j);
    let c = i * size + j;
    lemma_cell_coordinates(c, size);
    lemma_cells(size, c / size, c % size, i, j);
}

/// Whatever was drawn, a seeded table is well formed and holds only
/// quantities the engine may store; its radii are symmetric and ordered, and
/// particles of one type repel each other.
pub proof fn lemma_seeded(size: nat, draws: TypeDraws)
    ensures
        seeded(size, draws).wf(),
        seeded(size, draws).size() == size,
        seeded(size, draws).tame(),
        seeded(size, draws).radii_symmetric(),
        seeded(size, draws).radii_ordered(),
        seeded(size, draws).self_repelling(),
{
    let table = seeded(size, draws);
    let n = size as int;
    assert forall|c: int| 0 <= c < table.size() * table.size() implies in_range(
        #[trigger] table.attract[c] as int,
    ) && in_range(table.min_r[c] as int) && 0 <= table.max_r[c] && in_range(
        table.max_r[c] as int,
    ) by {
        lemma_cell_coordinates(c, n);
    }
    assert forall|i: int, j: int| table.has(i, j) implies #[trigger] table.min_r_at(i, j)
        == table.min_r_at(j, i) && #[trigger] table.max_r_at(i, j) == table.max_r_at(j, i) by {
        lemma_cells(n, i, j, j, i);
        lemma_cells(n, j, i, i, j);
        lemma_cell_of_pair(n, i, j);
        lemma_cell_of_pair(n, j, i);
    }
    assert forall|i: int, j: int| table.has(i, j) implies DIAMETER <= #[trigger] table.min_r_at(
        i,
        j,
    ) <= table.max_r_at(i, j) by {
        lemma_cells(n, i, j, j, i);
        lemma_cell_of_pair(n, i, j);
    }
    assert forall|i: int| 0 <= i < table.size() implies #[trigger] table.min_r_at(i, i)
        == DIAMETER && table.attract_at(i, i) <= 0 by {
        lemma_cells(n, i, i, i, i);
        lemma_cell_of_pair(n, i, i);
    }
}

/// The place of the pair `(i, j)` in a matrix laid out row by row.
fn flat(size: usize, i: usize, j: usize) -> (c: usize)
    requires
        i < size,
        j < size,
        size * size <= usize::MAX,
    ensures
        c == i * size + j,
        c < size * size,
{
    proof {
        lemma_cells(size as int, i as int, j as int, i as int, j as int);
        assert(0 <= i * size <= i * size + j) by (nonlinear_arith)
            requires
                0 <= i,
                0 <= size,
                0 <= j,
        ;
    }
    i * size + j
}

/// The colour of a type is opaque and fully saturated: one channel holds the
/// brightness of the type, a half or one, one holds nothing, and the third
/// lies between them.
pub proof fn lemma_type_color(i: int, size: int)
    requires
        0 <= i < size,
    ensures
        ({
            let c = type_color(i, size);
            let value = if i % 2 == 0 {
                ONE / 2
            } else {
                ONE as int
            };
            &&& c.a == ONE
            &&& 0 <= c.r <= value
            &&& 0 <= c.g <= value
            &&& 0 <= c.b <= value
            &&& c.r == value || c.g == value || c.b == value
            &&& c.r == 0 || c.g == 0 || c.b == 0
        }),
{
    let value = if i % 2 == 0 {
        ONE / 2
    } else {
        ONE as int
    };
    assert(i * ONE >= 0) by (nonlinear_arith)
        requires
            i >= 0,
    ;
    vstd::arithmetic::div_mod::lemma_div_pos_is_pos(i * ONE, size);
    lemma_channels(quotient(i * ONE, size), ONE as int, value);
    assert(value * 0 == 0);
}

/// Computes [`type_color`].
pub fn color_of_type(i: usize, size: usize) -> (color: Color)
    requires
        i < size,
    ensures
        color == type_color(i as int, size as int),
{
    let hue: i128 = (i as i128) * (ONE as i128) / (size as i128);
    assert(0 <= hue < ONE) by (nonlinear_arith)
        requires
            0 <= i < size,
            hue == (i * ONE) / (size as int),
    ;
    Color::from_hsv(
        hue as i64,
        ONE,
        if i % 2 == 0 {
            ONE / 2
        } else {
            ONE
        },
    )
}

/// Sets the coefficients of the pair `(i, j)` from its three variates, and
/// gives the pair `(j, i)` the same radii.
fn seed_pair(types: &mut ParticleTypes, i: usize, j: usize, attract: i64, min_r: i64, max_r: i64)
    requires
        old(types).wf(),
        old(types)@.has(i as int, j as int),
    ensures
        final(types).wf(),
        final(types)@ == ({
            let a = clamp(attract as int);
            let inner = if i == j {
                DIAMETER as int
            } else {
                larger(clamp(min_r as int), DIAMETER as int)
            };
            let outer = larger(clamp(max_r as int), inner);
            let here = old(types)@.cell(i as int, j as int);
            let there = old(types)@.cell(j as int, i as int);
            TypeTable {
                colors: old(types)@.colors,
                attract: old(types)@.attract.update(
                    here,
                    (if i == j {
                        -magnitude(a)
                    } else {
                        a
                    }) as i64,
                ),
                min_r: old(types)@.min_r.update(here, inner as i64).update(there, inner as i64),
                max_r: old(types)@.max_r.update(here, outer as i64).update(there, outer as i64),
            }
        }),
{
    let a: i64 = saturate(attract as i128);
    let inner: i64;
    if i == j {
        types.set_attract(
            i,
            j,
            if a > 0 {
                -a
            } else {
                a
            },
        );
        inner = DIAMETER;
    } else {
        types.set_attract(i, j, a);
        let drawn: i64 = saturate(min_r as i128);
        inner =
        if drawn >= DIAMETER {
            drawn
        } else {
            DIAMETER
        };
    }
    types.set_min_r(i, j, inner);
    let drawn: i64 = saturate(max_r as i128);
    let outer: i64 = if drawn >= inner {
        drawn
    } else {
        inner
    };
    types.set_max_r(i, j, outer);
    // Keep the radii symmetric.
    types.set_max_r(j, i, outer);
    types.set_min_r(j, i, inner);
}

/// The pair `(a, b)` has had its turn when the traversal stands at `(i, j)`.
pub open spec fn visited(a: int, b: int, i: int, j: int) -> bool {
    a < i || (a == i && b < j)
}

/// The radii of the pair `(a, b)` have been set for the last time when the
/// traversal stands at `(i, j)`.
pub open spec fn settled(a: int, b: int, i: int, j: int) -> bool {
    if a >= b {
        visited(a, b, i, j)
    } else {
        visited(b, a, i, j)
    }
}

/// Gives every type its colour and every pair of types its coefficients.
///
/// The types are gone through row by row. Each pair takes its variates from
/// its own cell and hands its radii on to the mirrored pair, so that of the
/// two cells of a pair the one below the diagonal decides.
pub fn regenerate(
    types: &mut ParticleTypes,
    attract: &Vec<i64>,
    min_r: &Vec<i64>,
    max_r: &Vec<i64>,
)
    requires
        old(types).wf(),
        (TypeDraws { attract: attract@, min_r: min_r@, max_r: max_r@ }).fits(old(types)@.size()),
    ensures
        final(types).wf(),
        final(types)@ == seeded(
            old(types)@.size(),
            TypeDraws { attract: attract@, min_r: min_r@, max_r: max_r@ },
        ),
{
    let size: usize = types.size();
    let ghost n = size as int;
    let ghost draws = TypeDraws { attract: attract@, min_r: min_r@, max_r: max_r@ };
    let mut i: usize = 0;
    while i < size
        invariant
            i <= size,
            n == size,
            types.wf(),
            types@.size() == size,
            draws == (TypeDraws { attract: attract@, min_r: min_r@, max_r: max_r@ }),
            draws.fits(size as nat),
            forall|a: int| 0 <= a < i ==> types@.colors[a] == type_color(a, n),
            forall|a: int, b: int|
                0 <= a < n && 0 <= b < n && visited(a, b, i as int, 0)
                    ==> #[trigger] types@.attract_at(a, b) == seeded_attract(draws, n, a, b),
            forall|a: int, b: int|
                0 <= a < n && 0 <= b < n && settled(a, b, i as int, 0)
                    ==> #[trigger] types@.min_r_at(a, b) == seeded_min_r(draws, n, a, b),
            forall|a: int, b: int|
                0 <= a < n && 0 <= b < n && settled(a, b, i as int, 0)
                    ==> #[trigger] types@.max_r_at(a, b) == seeded_max_r(draws, n, a, b),
        decreases size - i,
    {
        let ghost uncoloured = types@;
        types.set_color(i, color_of_type(i, size));
        proof {
            let coloured = types@;
            assert forall|a: int, b: int| 0 <= a < n && 0 <= b < n implies (
            #[trigger] coloured.attract_at(a, b)) == uncoloured.attract_at(a, b) by {}
            assert forall|a: int, b: int| 0 <= a < n && 0 <= b < n implies (
            #[trigger] coloured.min_r_at(a, b)) == uncoloured.min_r_at(a, b) by {}
            assert forall|a: int, b: int| 0 <= a < n && 0 <= b < n implies (
            #[trigger] coloured.max_r_at(a, b)) == uncoloured.max_r_at(a, b) by {}
        }
        let mut j: usize = 0;
        while j < size
            invariant
                i < size,
                j <= size,
                n == size,
                types.wf(),
                types@.size() == size,
                draws == (TypeDraws { attract: attract@, min_r: min_r@, max_r: max_r@ }),
                draws.fits(size as nat),
                forall|a: int| 0 <= a <= i ==> types@.colors[a] == type_color(a, n),
                forall|a: int, b: int|
                    0 <= a < n && 0 <= b < n && visited(a, b, i as int, j as int)
                        ==> #[trigger] types@.attract_at(a, b) == seeded_attract(draws, n, a, b),
                forall|a: int, b: int|
                    0 <= a < n && 0 <= b < n && settled(a, b, i as int, j as int)
                        ==> #[trigger] types@.min_r_at(a, b) == seeded_min_r(draws, n, a, b),
                forall|a: int, b: int|
                    0 <= a < n && 0 <= b < n && settled(a, b, i as int, j as int)
                        ==> #[trigger] types@.max_r_at(a, b) == seeded_max_r(draws, n, a, b),
            decreases size - j,
        {
            let ghost before = types@;
            assert(size * size <= usize::MAX) by {
                assert(attract.len() == size * size);
            }
            let c: usize = flat(size, i, j);
            seed_pair(types, i, j, attract[c], min_r[c], max_r[c]);
            proof {
                let after = types@;
                lemma_cells(n, i as int, j as int, j as int, i as int);
                lemma_cells(n, j as int, i as int, i as int, j as int);
                assert forall|a: int, b: int|
                    0 <= a < n && 0 <= b < n && visited(
                        a,
                        b,
                        i as int,
                        j + 1,
                    ) implies #[trigger] after.attract_at(a, b) == seeded_attract(
                    draws,
                    n,
                    a,
                    b,
                ) by {
                    lemma_cells(n, a, b, i as int, j as int);
                    if !(a == i && b == j) {
                        assert(before.attract_at(a, b) == seeded_attract(draws, n, a, b));
                    }
                }
                assert forall|a: int, b: int|
                    0 <= a < n && 0 <= b < n && settled(
                        a,
                        b,
                        i as int,
                        j + 1,
                    ) implies #[trigger] after.min_r_at(a, b) == seeded_min_r(draws, n, a, b) by {
                    lemma_cells(n, a, b, i as int, j as int);
                    lemma_cells(n, a, b, j as int, i as int);
                    if !((a == i && b == j) || (a == j && b == i)) {
                        assert(before.min_r_at(a, b) == seeded_min_r(draws, n, a, b));
                    }
                }
                assert forall|a: int, b: int|
                    0 <= a < n && 0 <= b < n && settled(
                        a,
                        b,
                        i as int,
                        j + 1,
                    ) implies #[trigger] after.max_r_at(a, b) == seeded_max_r(draws, n, a, b) by {
                    lemma_cells(n, a, b, i as int, j as int);
                    lemma_cells(n, a, b, j as int, i as int);
                    if !((a == i && b == j) || (a == j && b == i)) {
                        assert(before.max_r_at(a, b) == seeded_max_r(draws, n, a, b));
                    }
                }
            }
            j += 1;
        }
        i += 1;
    }
    proof {
        let table = seeded(size as nat, draws);
        assert(types@.colors =~= table.colors);
        assert forall|c: int| 0 <= c < n * n implies types@.attract[c] == table.attract[c]
            && types@.min_r[c] == table.min_r[c] && types@.max_r[c] == table.max_r[c] by {
            lemma_cell_coordinates(c, n);
            let a = c / n;
            let b = c % n;
            assert(types@.attract_at(a, b) == seeded_attract(draws, n, a, b));
            assert(types@.min_r_at(a, b) == seeded_min_r(draws, n, a, b));
            assert(types@.max_r_at(a, b) == seeded_max_r(draws, n, a, b));
        }
        assert(types@.attract =~= table.attract);
        assert(types@.min_r =~= table.min_r);
        assert(types@.max_r =~= table.max_r);
    }
}

/// Where a particle is put along an axis of the given extent: in the middle
/// half, as far along it as the variate `u` says.
pub open spec fn spread(u: int, extent: int) -> int {
    times(plus(times(clamp(u), HALF as int), QUARTER as int), extent)
}

/// The velocity a particle is given along an axis: a fifth of the variate.
pub open spec fn launch(z: int) -> int {
    times(clamp(z), FIFTH as int)
}

/// The particle that the variate gives in a world of the given size.
pub open spec fn placed(variate: ParticleVariate, width: int, height: int) -> Particle {
    Particle {
        x: spread(variate.x as int, width) as i64,
        y: spread(variate.y as int, height) as i64,
        vx: launch(variate.vx as int) as i64,
        vy: launch(variate.vy as int) as i64,
        particle_type: variate.particle_type,
    }
}

/// The particles that the variates give, one for one.
pub open spec fn scattered(variates: Seq<ParticleVariate>, width: int, height: int) -> Seq<
    Particle,
> {
    Seq::new(variates.len(), |k: int| placed(variates[k], width, height))
}

/// Computes [`placed`].
pub fn place(variate: &ParticleVariate, width: i64, height: i64) -> (particle: Particle)
    requires
        in_range(width as int),
        in_range(height as int),
    ensures
        particle == placed(*variate, width as int, height as int),
        particle.tame(),
{
    Particle {
        x: product(sum(product(saturate(variate.x as i128), HALF), QUARTER), width),
        y: product(sum(product(saturate(variate.y as i128), HALF), QUARTER), height),
        vx: product(saturate(variate.vx as i128), FIFTH),
        vy: product(saturate(variate.vy as i128), FIFTH),
        particle_type: variate.particle_type,
    }
}

/// Computes [`scattered`].
pub fn scatter(variates: &Vec<ParticleVariate>, width: i64, height: i64) -> (particles: Vec<
    Particle,
>)
    requires
        in_range(width as int),
        in_range(height as int),
    ensures
        particles@ == scattered(variates@, width as int, height as int),
        forall|k: int| 0 <= k < particles.len() ==> (#[trigger] particles[k]).tame(),
{
    let mut particles: Vec<Particle> = Vec::new();
    let mut k: usize = 0;
    while k < variates.len()
        invariant
            k <= variates.len(),
            in_range(width as int),
            in_range(height as int),
            particles.len() == k,
            forall|m: int|
                0 <= m < k ==> #[trigger] particles[m] == placed(
                    variates[m],
                    width as int,
                    height as int,
                ),
            forall|m: int| 0 <= m < k ==> (#[trigger] particles[m]).tame(),
        decreases variates.len() - k,
    {
        particles.push(place(&variates[k], width, height));
        k += 1;
    }
    assert(particles@ =~= scattered(variates@, width as int, height as int));
    particles
}

} // verus!
