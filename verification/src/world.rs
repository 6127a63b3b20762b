//! The world as a mathematical value: what a universe holds, what a step makes
//! of it, and what is true of every step.

use crate::fixed::{clamp, in_range, larger, minus, over, plus, smaller, times, LIMIT, ONE};
use crate::force::{displacement, interaction, DIAMETER, RADIUS};
use crate::hsv::Color;
use crate::motion::{advance, lemma_torus_contains, lemma_walls_contain};
use crate::particle::{all_tame, all_typed, Particle};
use crate::particle_types::TypeTable;
use crate::preset::{ConfigError, Preset, Seed};
use crate::seeding::{lemma_seeded, scattered, seeded, ParticleVariate, TypeDraws, HALF};
use crate::universe::Circle;
use vstd::prelude::*;

verus! {

/// The mathematical content of a [`Universe`].
pub struct World {
    pub types: TypeTable,
    pub particles: Seq<Particle>,
    pub width: i64,
    pub height: i64,
    pub center_x: i64,
    pub center_y: i64,
    pub zoom: i64,
    pub seed: Seed,
    pub wrap: bool,
}

impl World {
    /// The world of the given size with no types and no particles, seen whole
    /// from its middle, with walls.
    pub open spec fn empty(width: int, height: int) -> World {
        World {
            types: TypeTable::blank(0),
            particles: Seq::empty(),
            width: clamp(width) as i64,
            height: clamp(height) as i64,
            center_x: times(clamp(width), HALF as int) as i64,
            center_y: times(clamp(height), HALF as int) as i64,
            zoom: ONE,
            seed: Seed::zero(),
            wrap: false,
        }
    }

    /// Everything in the world is a quantity the engine may store, the table
    /// of types is well formed, the seed can be drawn from, and the view is
    /// not zoomed out beyond the whole world.
    pub open spec fn wf(self) -> bool {
        &&& self.types.wf()
        &&& self.types.tame()
        &&& all_tame(self.particles)
        &&& in_range(self.width as int)
        &&& in_range(self.height as int)
        &&& in_range(self.center_x as int)
        &&& in_range(self.center_y as int)
        &&& ONE <= self.zoom <= LIMIT
        &&& self.seed.valid()
    }

    /// Every particle is of a type that the table holds.
    pub open spec fn typed(self) -> bool {
        all_typed(self.particles, self.types.size())
    }

    /// The change of velocity that particle `p` gets from particle `q`; none
    /// from itself.
    pub open spec fn pull(self, p: int, q: int) -> (int, int) {
        if p == q {
            (0, 0)
        } else {
            let a = self.particles[p];
            let b = self.particles[q];
            interaction(
                displacement(a.x as int, b.x as int, self.width as int, self.wrap),
                displacement(a.y as int, b.y as int, self.height as int, self.wrap),
                self.types.attract_at(a.particle_type as int, b.particle_type as int) as int,
                self.types.min_r_at(a.particle_type as int, b.particle_type as int) as int,
                self.types.max_r_at(a.particle_type as int, b.particle_type as int) as int,
                self.seed.flat_force,
            )
        }
    }

    /// The velocity of particle `p` once the first `n` particles have acted
    /// on it, one after the other.
    pub open spec fn pushed(self, p: int, n: int) -> (int, int)
        decreases n,
    {
        if n <= 0 {
            (self.particles[p].vx as int, self.particles[p].vy as int)
        } else {
            let before = self.pushed(p, n - 1);
            let force = self.pull(p, n - 1);
            (plus(before.0, force.0), plus(before.1, force.1))
        }
    }

    /// Particle `p` once all particles have acted on it: where it was, with
    /// its new velocity.
    pub open spec fn forced(self, p: int) -> Particle {
        let v = self.pushed(p, self.particles.len() as int);
        Particle { vx: v.0 as i64, vy: v.1 as i64, ..self.particles[p] }
    }

    /// Particle `p` after a step: all particles have acted on it, and it has
    /// moved with its new velocity.
    pub open spec fn stepped_particle(self, p: int) -> Particle {
        let a = self.forced(p);
        let across = advance(
            a.x as int,
            a.vx as int,
            self.width as int,
            self.seed.friction as int,
            self.wrap,
        );
        let down = advance(
            a.y as int,
            a.vy as int,
            self.height as int,
            self.seed.friction as int,
            self.wrap,
        );
        Particle {
            x: across.0 as i64,
            y: down.0 as i64,
            vx: across.1 as i64,
            vy: down.1 as i64,
            particle_type: a.particle_type,
        }
    }

    /// The world after a step. Every particle feels the others where they
    /// were before the step; nothing but the particles changes.
    pub open spec fn stepped(self) -> World {
        World {
            particles: Seq::new(self.particles.len(), |p: int| self.stepped_particle(p)),
            ..self
        }
    }

    /// The world after `n` steps.
    pub open spec fn after(self, n: nat) -> World
        decreases n,
    {
        if n == 0 {
            self
        } else {
            self.after((n - 1) as nat).stepped()
        }
    }

    /// The world with `types` blank types and `particles` particles at rest
    /// at the origin.
    pub open spec fn populated(self, types: nat, particles: nat) -> World {
        World {
            types: TypeTable::blank(types),
            particles: Seq::new(particles, |k: int| Particle::resting()),
            ..self
        }
    }

    /// The world with `seed` for its seed and with the types and particles
    /// that the variates give.
    pub open spec fn reseeded(
        self,
        seed: Seed,
        draws: TypeDraws,
        variates: Seq<ParticleVariate>,
    ) -> World {
        World {
            seed,
            types: seeded(self.types.size(), draws),
            particles: scattered(variates, self.width as int, self.height as int),
            ..self
        }
    }

    /// The world with the population and the seed of `preset`, and with the
    /// types and particles that the variates give. Nothing is left of the
    /// types and particles that were there.
    pub open spec fn loaded(
        self,
        preset: Preset,
        draws: TypeDraws,
        variates: Seq<ParticleVariate>,
    ) -> World {
        self.populated(
            preset.population.particle_types as nat,
            preset.population.particles as nat,
        ).reseeded(preset.seed, draws, variates)
    }

    /// `draws` can have been drawn for the types of this world from `seed`:
    /// the attraction coefficients are the given ones, and the radii lie in
    /// the ranges of the seed.
    pub open spec fn type_draws(self, seed: Seed, attract: Seq<i64>, draws: TypeDraws) -> bool {
        &&& draws.fits(self.types.size())
        &&& draws.attract == attract
        &&& forall|c: int|
            0 <= c < draws.min_r.len() ==> seed.min_r_lower <= #[trigger] draws.min_r[c]
                <= seed.min_r_upper
        &&& forall|c: int|
            0 <= c < draws.max_r.len() ==> seed.max_r_lower <= #[trigger] draws.max_r[c]
                <= seed.max_r_upper
    }

    /// `variates` can have been drawn for the particles of this world: there
    /// is one for each particle, none is of the last type, the places lie
    /// from 0 up to but not including `ONE`, and the velocities are the given
    /// ones, two by two.
    pub open spec fn particle_draws(
        self,
        velocity: Seq<i64>,
        variates: Seq<ParticleVariate>,
    ) -> bool {
        &&& variates.len() == self.particles.len()
        &&& velocity.len() == 2 * self.particles.len()
        &&& forall|k: int|
            0 <= k < variates.len() ==> {
                &&& (#[trigger] variates[k]).particle_type + 1 < self.types.size()
                &&& 0 <= variates[k].x < ONE
                &&& 0 <= variates[k].y < ONE
                &&& variates[k].vx == velocity[2 * k]
                &&& variates[k].vy == velocity[2 * k + 1]
            }
    }

    /// What keeps this world from being seeded anew from `seed` with the
    /// given numbers of normal variates, if anything.
    pub open spec fn reseed_fault(self, seed: Seed, attract: nat, velocity: nat) -> Option<
        ConfigError,
    > {
        if seed.fault().is_some() {
            seed.fault()
        } else if self.particles.len() > 0 && self.types.size() < 2 {
            Some(ConfigError::NoTypeToDraw)
        } else if attract != self.types.size() * self.types.size() || velocity != 2
            * self.particles.len() {
            Some(ConfigError::VariateCount)
        } else {
            None
        }
    }

    /// What keeps `preset` from being loaded with the given numbers of normal
    /// variates, if anything.
    pub open spec fn load_fault(preset: Preset, attract: nat, velocity: nat) -> Option<
        ConfigError,
    > {
        let types = preset.population.particle_types;
        let particles = preset.population.particles;
        if preset.seed.fault().is_some() {
            preset.seed.fault()
        } else if types * types > usize::MAX {
            Some(ConfigError::TooManyTypes)
        } else if particles > 0 && types < 2 {
            Some(ConfigError::NoTypeToDraw)
        } else if attract != types * types || velocity != 2 * particles {
            Some(ConfigError::VariateCount)
        } else {
            None
        }
    }

    /// What keeps `preset` from being loaded with the given variates, if
    /// anything.
    pub open spec fn variates_fault(
        preset: Preset,
        draws: TypeDraws,
        variates: Seq<ParticleVariate>,
    ) -> Option<ConfigError> {
        let types = preset.population.particle_types;
        let particles = preset.population.particles;
        if preset.seed.fault().is_some() {
            preset.seed.fault()
        } else if types * types > usize::MAX {
            Some(ConfigError::TooManyTypes)
        } else if !draws.fits(types as nat) || variates.len() != particles {
            Some(ConfigError::VariateCount)
        } else if exists|k: int|
            0 <= k < variates.len() && (#[trigger] variates[k]).particle_type >= types {
            Some(ConfigError::UnknownType)
        } else {
            None
        }
    }

    /// Where the middle of the view comes to lie along an axis of the given
    /// extent when `c` is asked for: as near to `c` as the view allows
    /// without showing anything beyond the world.
    pub open spec fn framed(c: int, extent: int, zoom: int) -> int {
        let margin = over(HALF as int, zoom);
        larger(smaller(clamp(c), times(extent, ONE - margin)), times(extent, margin))
    }

    /// The world seen from `(cx, cy)` with the given zoom. The zoom is at
    /// least one, and the view stays within the world.
    pub open spec fn zoomed(self, cx: int, cy: int, zoom: int) -> World {
        let zoom = larger(clamp(zoom), ONE as int);
        World {
            center_x: Self::framed(cx, self.width as int, zoom) as i64,
            center_y: Self::framed(cy, self.height as int, zoom) as i64,
            zoom: zoom as i64,
            ..self
        }
    }

    /// Where a point of the world at `at` along an axis of the given extent
    /// is seen on a screen of the same extent.
    pub open spec fn projected(at: int, center: int, extent: int, zoom: int) -> int {
        plus(times(minus(at, center), zoom), times(extent, HALF as int))
    }

    /// The circle as which particle `p` is seen, with the given opacity.
    pub open spec fn seen(self, p: int, opacity: int) -> Circle {
        let a = self.particles[p];
        Circle {
            x: Self::projected(
                a.x as int,
                self.center_x as int,
                self.width as int,
                self.zoom as int,
            ) as i64,
            y: Self::projected(
                a.y as int,
                self.center_y as int,
                self.height as int,
                self.zoom as int,
            ) as i64,
            radius: times(RADIUS as int, self.zoom as int) as i64,
            color: Color { a: clamp(opacity) as i64, ..self.types.colors[a.particle_type as int] },
        }
    }

    /// The two worlds differ at most in how they are looked at.
    pub open spec fn same_physics(self, other: World) -> bool {
        &&& self.types == other.types
        &&& self.particles == other.particles
        &&& self.width == other.width
        &&& self.height == other.height
        &&& self.seed == other.seed
        &&& self.wrap == other.wrap
    }

    /// Every particle is a diameter or more away from the left and the right
    /// edge of the world.
    pub open spec fn walled_across(self) -> bool {
        forall|p: int|
            0 <= p < self.particles.len() ==> DIAMETER <= (#[trigger] self.particles[p]).x
                <= self.width - DIAMETER
    }

    /// Every particle is a diameter or more away from the upper and the lower
    /// edge of the world.
    pub open spec fn walled_down(self) -> bool {
        forall|p: int|
            0 <= p < self.particles.len() ==> DIAMETER <= (#[trigger] self.particles[p]).y
                <= self.height - DIAMETER
    }

    /// Every particle is in the world.
    pub open spec fn inside(self) -> bool {
        forall|p: int|
            0 <= p < self.particles.len() ==> 0 <= (#[trigger] self.particles[p]).x < self.width
                && 0 <= self.particles[p].y < self.height
    }
}

/// While the first `n` particles act on a particle, its velocity stays a
/// quantity the engine may store.
pub proof fn lemma_pushed_in_range(world: World, p: int, n: int)
    requires
        world.wf(),
        0 <= p < world.particles.len(),
    ensures
        in_range(world.pushed(p, n).0),
        in_range(world.pushed(p, n).1),
    decreases n,
{
    if n > 0 {
        lemma_pushed_in_range(world, p, n - 1);
    } else {
        assert(world.particles[p].tame());
    }
}

/// A step leaves a world in order: what it stores stays in range, and the
/// particles keep their types.
pub proof fn lemma_step_keeps_order(world: World)
    requires
        world.wf(),
        world.typed(),
    ensures
        world.stepped().wf(),
        world.stepped().typed(),
{
    let next = world.stepped();
    assert forall|p: int| 0 <= p < next.particles.len() implies (
    #[trigger] next.particles[p]).tame() && next.particles[p].particle_type
        < next.types.size() by {
        lemma_pushed_in_range(world, p, world.particles.len() as int);
        assert(world.particles[p].tame());
        assert(world.particles[p].particle_type < world.types.size());
    }
}

/// Any number of steps leaves a world in order.
pub proof fn lemma_steps_keep_order(world: World, n: nat)
    requires
        world.wf(),
        world.typed(),
    ensures
        world.after(n).wf(),
        world.after(n).typed(),
        world.after(n).width == world.width,
        world.after(n).height == world.height,
        world.after(n).wrap == world.wrap,
        world.after(n).particles.len() == world.particles.len(),
    decreases n,
{
    if n > 0 {
        lemma_steps_keep_order(world, (n - 1) as nat);
        lemma_step_keeps_order(world.after((n - 1) as nat));
    }
}

/// Between walls every particle is, after a step, a diameter or more away
/// from the two edges across an axis along which the world has room for a
/// particle, wherever it was and however fast.
pub proof fn lemma_walls_hold(world: World)
    requires
        world.wf(),
        !world.wrap,
    ensures
        2 * DIAMETER <= world.width ==> world.stepped().walled_across(),
        2 * DIAMETER <= world.height ==> world.stepped().walled_down(),
{
    let next = world.stepped();
    if 2 * DIAMETER <= world.width {
        assert forall|p: int| 0 <= p < next.particles.len() implies DIAMETER <= (
        #[trigger] next.particles[p]).x <= next.width - DIAMETER by {
            let a = world.forced(p);
            lemma_walls_contain(
                a.x as int,
                a.vx as int,
                world.width as int,
                world.seed.friction as int,
            );
        }
    }
    if 2 * DIAMETER <= world.height {
        assert forall|p: int| 0 <= p < next.particles.len() implies DIAMETER <= (
        #[trigger] next.particles[p]).y <= next.height - DIAMETER by {
            let a = world.forced(p);
            lemma_walls_contain(
                a.y as int,
                a.vy as int,
                world.height as int,
                world.seed.friction as int,
            );
        }
    }
}

/// Between walls every particle is, after any number of steps but none, a
/// diameter or more away from the two edges across an axis along which the
/// world has room for a particle.
pub proof fn lemma_walls_hold_for_good(world: World, n: nat)
    requires
        world.wf(),
        world.typed(),
        !world.wrap,
        n >= 1,
    ensures
        2 * DIAMETER <= world.width ==> world.after(n).walled_across(),
        2 * DIAMETER <= world.height ==> world.after(n).walled_down(),
{
    lemma_steps_keep_order(world, (n - 1) as nat);
    lemma_walls_hold(world.after((n - 1) as nat));
}

/// On a torus a particle is in the world after a step exactly if the move
/// that follows the forces has taken it less than one extent of the world
/// beyond either edge: it comes in again only once.
pub proof fn lemma_torus_holds(world: World, p: int)
    requires
        world.wf(),
        world.wrap,
        0 < world.width,
        0 < world.height,
        0 <= p < world.particles.len(),
    ensures
        0 <= world.stepped().particles[p].x < world.width <==> -world.width <= plus(
            world.forced(p).x as int,
            world.forced(p).vx as int,
        ) < 2 * world.width,
        0 <= world.stepped().particles[p].y < world.height <==> -world.height <= plus(
            world.forced(p).y as int,
            world.forced(p).vy as int,
        ) < 2 * world.height,
{
    let a = world.forced(p);
    lemma_torus_contains(a.x as int, a.vx as int, world.width as int, world.seed.friction as int);
    lemma_torus_contains(a.y as int, a.vy as int, world.height as int, world.seed.friction as int);
}

/// On a torus the particles stay in the world for one more step if, once the
/// forces have acted, none is faster than the world is wide and high.
pub proof fn lemma_torus_holds_the_slow(world: World)
    requires
        world.wf(),
        world.wrap,
        world.inside(),
        forall|p: int|
            0 <= p < world.particles.len() ==> -world.width <= (#[trigger] world.forced(p)).vx
                <= world.width && -world.height <= world.forced(p).vy <= world.height,
    ensures
        world.stepped().inside(),
{
    let next = world.stepped();
    assert forall|p: int| 0 <= p < next.particles.len() implies 0 <= (
    #[trigger] next.particles[p]).x < next.width && 0 <= next.particles[p].y < next.height by {
        assert(0 <= world.particles[p].x < world.width);
        assert(0 <= world.particles[p].y < world.height);
        assert(-world.width <= world.forced(p).vx <= world.width);
        lemma_torus_holds(world, p);
    }
}

/// Two worlds that differ only in how they are looked at push each particle
/// alike.
pub proof fn lemma_pushed_alike(a: World, b: World, p: int, n: int)
    requires
        a.same_physics(b),
    ensures
        a.pushed(p, n) == b.pushed(p, n),
    decreases n,
{
    if n > 0 {
        lemma_pushed_alike(a, b, p, n - 1);
    }
}

/// Two worlds that differ only in how they are looked at still do so after
/// any number of steps.
pub proof fn lemma_view_is_idle(a: World, b: World, n: nat)
    requires
        a.same_physics(b),
    ensures
        a.after(n).same_physics(b.after(n)),
    decreases n,
{
    if n > 0 {
        lemma_view_is_idle(a, b, (n - 1) as nat);
        let x = a.after((n - 1) as nat);
        let y = b.after((n - 1) as nat);
        assert forall|p: int| 0 <= p < x.particles.len() implies x.stepped_particle(p)
            == y.stepped_particle(p) by {
            lemma_pushed_alike(x, y, p, x.particles.len() as int);
        }
        assert(x.stepped().particles =~= y.stepped().particles);
    }
}

/// What is loaded and then stepped any number of times depends on nothing
/// but the size and the shape of the world, the preset and the variates: not
/// on the types or the particles that were there before, nor on the view.
pub proof fn lemma_replay(
    a: World,
    b: World,
    preset: Preset,
    draws: TypeDraws,
    variates: Seq<ParticleVariate>,
    n: nat,
)
    requires
        a.width == b.width,
        a.height == b.height,
        a.wrap == b.wrap,
    ensures
        a.loaded(preset, draws, variates).after(n).same_physics(
            b.loaded(preset, draws, variates).after(n),
        ),
{
    let x = a.loaded(preset, draws, variates);
    let y = b.loaded(preset, draws, variates);
    assert(x.types == y.types);
    assert(x.particles == y.particles);
    lemma_view_is_idle(x, y, n);
}

/// A world that has just been loaded holds as many types and particles as
/// the preset asks for, and its types are in order: the radii symmetric and
/// ordered, and every type repelling its own kind.
pub proof fn lemma_loaded(
    world: World,
    preset: Preset,
    draws: TypeDraws,
    variates: Seq<ParticleVariate>,
)
    requires
        variates.len() == preset.population.particles,
    ensures
        ({
            let loaded = world.loaded(preset, draws, variates);
            let types = preset.population.particle_types;
            &&& loaded.types.colors.len() == types
            &&& loaded.types.attract.len() == types * types
            &&& loaded.types.min_r.len() == types * types
            &&& loaded.types.max_r.len() == types * types
            &&& loaded.particles.len() == preset.population.particles
            &&& loaded.types.radii_symmetric()
            &&& loaded.types.radii_ordered()
            &&& loaded.types.self_repelling()
        }),
{
    lemma_seeded(preset.population.particle_types as nat, draws);
}

} // verus!
