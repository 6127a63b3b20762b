//! The universe: the types, the particles, the world they live in, and the
//! step that moves them.

use crate::fixed::{
    clamp, difference, in_range, larger, product, ratio, saturate, smaller, sum, times, ONE,
};
use crate::force::{axis_displacement, pair_interaction, DIAMETER, RADIUS};
use crate::hsv::Color;
use crate::motion::advance_axis;
use crate::particle::Particle;
use crate::particle_types::{filled, lemma_cells, ParticleTypes};
use crate::preset::{ConfigError, Population, Preset, Seed};
use crate::random::{draw_between, draw_index, draw_many};
use crate::seeding::{
    lemma_seeded, regenerate, scatter, scattered, seeded, ParticleVariate, TypeDraws,
    TypeVariates, HALF,
};
use crate::world::{lemma_pushed_in_range, lemma_step_keeps_order, lemma_walls_hold, World};
use rand::rngs::ThreadRng;
use vstd::prelude::*;

verus! {

/// A circle on the screen.
#[derive(Debug, Clone, Copy, PartialEq, Eq)]
pub struct Circle {
    pub x: i64,
    pub y: i64,
    pub radius: i64,
    pub color: Color,
}

/// A universe of particles.
#[derive(Debug)]
pub struct Universe {
    types: ParticleTypes,
    particles: Vec<Particle>,
    width: i64,
    height: i64,
    center_x: i64,
    center_y: i64,
    zoom: i64,
    seed: Seed,
    wrap: bool,
    rng: ThreadRng,
}

impl View for Universe {
    type V = World;

    closed spec fn view(&self) -> World {
        World {
            types: self.types@,
            particles: self.particles@,
            width: self.width,
            height: self.height,
            center_x: self.center_x,
            center_y: self.center_y,
            zoom: self.zoom,
            seed: self.seed,
            wrap: self.wrap,
        }
    }
}

impl Universe {
    /// The universe is in a state that its operations keep up.
    pub open spec fn wf(&self) -> bool {
        self@.wf()
    }

    /// An empty universe of the given size. A size beyond the range of the
    /// engine is cut down to it.
    pub fn new(width: i64, height: i64) -> (universe: Universe)
        ensures
            universe.wf(),
            universe@ == World::empty(width as int, height as int),
    {
        let width: i64 = saturate(width as i128);
        let height: i64 = saturate(height as i128);
        let universe = Universe {
            types: ParticleTypes::new(0),
            particles: Vec::new(),
            width,
            height,
            center_x: product(width, HALF),
            center_y: product(height, HALF),
            zoom: ONE,
            seed: Seed::default(),
            wrap: false,
            rng: rand::thread_rng(),
        };
        assert(universe@.particles =~= Seq::empty());
        universe
    }

    /// The number of particles.
    pub fn particle_count(&self) -> (count: usize)
        ensures
            count == self@.particles.len(),
    {
        self.particles.len()
    }

    /// Particle `index`, if there is one.
    pub fn particle(&self, index: usize) -> (particle: Option<&Particle>)
        ensures
            index < self@.particles.len() ==> particle == Some(&self@.particles[index as int]),
            index >= self@.particles.len() ==> particle.is_none(),
    {
        if index < self.particles.len() {
            Some(&self.particles[index])
        } else {
            None
        }
    }

    /// The table of types.
    pub fn types(&self) -> (types: &ParticleTypes)
        ensures
            types@ == self@.types,
    {
        &self.types
    }

    /// How many types and particles there are.
    pub fn population(&self) -> (population: Population)
        ensures
            population.particle_types == self@.types.size(),
            population.particles == self@.particles.len(),
    {
        Population { particle_types: self.types.size(), particles: self.particles.len() }
    }

    /// The seed that was last taken.
    pub fn seed(&self) -> (seed: Seed)
        ensures
            seed == self@.seed,
    {
        self.seed
    }

    /// The width of the world.
    pub fn width(&self) -> (width: i64)
        ensures
            width == self@.width,
    {
        self.width
    }

    /// The height of the world.
    pub fn height(&self) -> (height: i64)
        ensures
            height == self@.height,
    {
        self.height
    }

    /// Whether the world is a torus.
    pub fn wrap(&self) -> (wrap: bool)
        ensures
            wrap == self@.wrap,
    {
        self.wrap
    }

    /// How much the view enlarges.
    pub fn zoom(&self) -> (zoom: i64)
        ensures
            zoom == self@.zoom,
    {
        self.zoom
    }

    /// The point of the world that is seen in the middle of the view.
    pub fn center(&self) -> (center: (i64, i64))
        ensures
            center == (self@.center_x, self@.center_y),
    {
        (self.center_x, self.center_y)
    }

    /// Gives the world a new size. A size beyond the range of the engine is
    /// cut down to it.
    pub fn set_size(&mut self, width: i64, height: i64)
        requires
            old(self).wf(),
        ensures
            final(self).wf(),
            final(self)@ == (World {
                width: clamp(width as int) as i64,
                height: clamp(height as int) as i64,
                ..old(self)@
            }),
    {
        self.width = saturate(width as i128);
        self.height = saturate(height as i128);
    }

    /// Turns the world into a torus, or puts up the walls again.
    pub fn set_wrap(&mut self, wrap: bool)
        requires
            old(self).wf(),
        ensures
            final(self).wf(),
            final(self)@ == (World { wrap, ..old(self)@ }),
    {
        self.wrap = wrap;
    }

    /// Replaces the types and the particles by the given numbers of blank
    /// ones: white types with all coefficients zero, and particles of the
    /// first type at rest at the origin.
    pub fn set_population(&mut self, num_types: usize, num_particles: usize)
        requires
            old(self).wf(),
            num_types * num_types <= usize::MAX,
        ensures
            final(self).wf(),
            final(self)@ == old(self)@.populated(num_types as nat, num_particles as nat),
            num_types > 0 ==> final(self)@.typed(),
    {
        self.types.resize(num_types);
        self.particles = filled(num_particles, Particle::default());
    }

    /// Makes the types anew from the given variates.
    pub fn set_types(&mut self, variates: &TypeVariates)
        requires
            old(self).wf(),
            variates@.fits(old(self)@.types.size()),
        ensures
            final(self).wf(),
            final(self)@ == (World {
                types: seeded(old(self)@.types.size(), variates@),
                ..old(self)@
            }),
            old(self)@.typed() ==> final(self)@.typed(),
    {
        proof {
            lemma_seeded(self@.types.size(), variates@);
        }
        regenerate(&mut self.types, &variates.attract, &variates.min_r, &variates.max_r);
    }

    /// Makes the particles anew from the given variates, one for one. Each
    /// has to be of a type that the table holds.
    pub fn set_particles(&mut self, variates: &Vec<ParticleVariate>)
        requires
            old(self).wf(),
            forall|k: int|
                0 <= k < variates.len() ==> (#[trigger] variates[k]).particle_type
                    < old(self)@.types.size(),
        ensures
            final(self).wf(),
            final(self)@.typed(),
            final(self)@ == (World {
                particles: scattered(
                    variates@,
                    old(self)@.width as int,
                    old(self)@.height as int,
                ),
                ..old(self)@
            }),
    {
        self.particles = scatter(variates, self.width, self.height);
    }

    /// Draws the radii of every pair of types from the ranges of the seed.
    fn draw_radii(&mut self) -> (radii: (Vec<i64>, Vec<i64>))
        requires
            old(self).wf(),
        ensures
            final(self)@ == old(self)@,
            radii.0.len() == old(self)@.types.size() * old(self)@.types.size(),
            radii.1.len() == old(self)@.types.size() * old(self)@.types.size(),
            forall|c: int|
                0 <= c < radii.0.len() ==> old(self)@.seed.min_r_lower <= #[trigger] radii.0[c]
                    <= old(self)@.seed.min_r_upper,
            forall|c: int|
                0 <= c < radii.1.len() ==> old(self)@.seed.max_r_lower <= #[trigger] radii.1[c]
                    <= old(self)@.seed.max_r_upper,
    {
        let pairs: usize = self.types.pairs();
        let min_r = draw_many(&mut self.rng, pairs, self.seed.min_r_lower, self.seed.min_r_upper);
        let max_r = draw_many(&mut self.rng, pairs, self.seed.max_r_lower, self.seed.max_r_upper);
        (min_r, max_r)
    }

    /// Draws a type and a place for every particle, and pairs them with the
    /// given velocities.
    fn draw_particles(&mut self, velocity: &Vec<i64>) -> (variates: Vec<ParticleVariate>)
        requires
            old(self).wf(),
            velocity.len() == 2 * old(self)@.particles.len(),
            old(self)@.particles.len() > 0 ==> old(self)@.types.size() >= 2,
        ensures
            final(self)@ == old(self)@,
            old(self)@.particle_draws(velocity@, variates@),
    {
        let count: usize = self.particles.len();
        let size: usize = self.types.size();
        let mut variates: Vec<ParticleVariate> = Vec::new();
        let mut k: usize = 0;
        while k < count
            invariant
                k <= count,
                self@ == old(self)@,
                count == self@.particles.len(),
                size == self@.types.size(),
                velocity.len() == 2 * count,
                count > 0 ==> size >= 2,
                variates.len() == k,
                forall|m: int|
                    0 <= m < k ==> {
                        &&& (#[trigger] variates[m]).particle_type + 1 < size
                        &&& 0 <= variates[m].x < ONE
                        &&& 0 <= variates[m].y < ONE
                        &&& variates[m].vx == velocity[2 * m]
                        &&& variates[m].vy == velocity[2 * m + 1]
                    },
            decreases count - k,
        {
            let particle_type: usize = draw_index(&mut self.rng, 0, size - 1);
            let x: i64 = draw_between(&mut self.rng, 0, ONE - 1);
            let y: i64 = draw_between(&mut self.rng, 0, ONE - 1);
            variates.push(
                ParticleVariate {
                    particle_type,
                    x,
                    y,
                    vx: velocity[2 * k],
                    vy: velocity[2 * k + 1],
                },
            );
            k += 1;
        }
        variates
    }

    /// Makes the types anew at random: the attraction coefficients from the
    /// given normal variates, one per ordered pair of types, the radii drawn
    /// from the ranges of the seed.
    pub fn set_random_types(&mut self, attract: &Vec<i64>)
        requires
            old(self).wf(),
            attract.len() == old(self)@.types.size() * old(self)@.types.size(),
        ensures
            final(self).wf(),
            old(self)@.typed() ==> final(self)@.typed(),
            exists|draws: TypeDraws| #[trigger]
                old(self)@.type_draws(old(self)@.seed, attract@, draws) && final(self)@ == (World {
                    types: seeded(old(self)@.types.size(), draws),
                    ..old(self)@
                }),
    {
        let radii = self.draw_radii();
        let ghost draws = TypeDraws { attract: attract@, min_r: radii.0@, max_r: radii.1@ };
        proof {
            lemma_seeded(self@.types.size(), draws);
        }
        regenerate(&mut self.types, attract, &radii.0, &radii.1);
        assert(old(self)@.type_draws(old(self)@.seed, attract@, draws));
    }

    /// Makes the particles anew at random: each of a drawn type other than
    /// the last, at a drawn place in the middle of the world, with a velocity
    /// from the given normal variates, two per particle.
    pub fn set_random_particles(&mut self, velocity: &Vec<i64>)
        requires
            old(self).wf(),
            velocity.len() == 2 * old(self)@.particles.len(),
            old(self)@.particles.len() > 0 ==> old(self)@.types.size() >= 2,
        ensures
            final(self).wf(),
            final(self)@.typed(),
            exists|variates: Seq<ParticleVariate>| #[trigger]
                old(self)@.particle_draws(velocity@, variates) && final(self)@ == (World {
                    particles: scattered(
                        variates,
                        old(self)@.width as int,
                        old(self)@.height as int,
                    ),
                    ..old(self)@
                }),
    {
        let variates = self.draw_particles(velocity);
        self.particles = scatter(&variates, self.width, self.height);
        assert(old(self)@.particle_draws(velocity@, variates@));
    }

    /// Takes `seed` for the seed and makes the types and the particles anew
    /// at random, unless the seed or the numbers of variates are at fault:
    /// then nothing changes.
    pub fn reseed(&mut self, seed: &Seed, attract: &Vec<i64>, velocity: &Vec<i64>) -> (done:
        Result<(), ConfigError>)
        requires
            old(self).wf(),
        ensures
            final(self).wf(),
            done == match old(self)@.reseed_fault(
                *seed,
                attract.len() as nat,
                velocity.len() as nat,
            ) {
                Some(e) => Err::<(), ConfigError>(e),
                None => Ok::<(), ConfigError>(()),
            },
            done.is_err() ==> final(self)@ == old(self)@,
            done.is_ok() ==> final(self)@.typed() && exists|
                draws: TypeDraws,
                variates: Seq<ParticleVariate>,
            |
                old(self)@.type_draws(*seed, attract@, draws) && old(self)@.particle_draws(
                    velocity@,
                    variates,
                ) && final(self)@ == #[trigger] old(self)@.reseeded(*seed, draws, variates),
    {
        match seed.validate() {
            Err(e) => {
                return Err(e);
            },
            Ok(_) => {},
        }
        let size: usize = self.types.size();
        let count: usize = self.particles.len();
        if count > 0 && size < 2 {
            return Err(ConfigError::NoTypeToDraw);
        }
        if attract.len() != self.types.pairs() || count > usize::MAX / 2 || velocity.len() != 2
            * count {
            return Err(ConfigError::VariateCount);
        }
        self.seed = *seed;
        let ghost taken = self@;
        self.set_random_types(attract);
        let ghost typed = self@;
        self.set_random_particles(velocity);
        proof {
            let draws = choose|draws: TypeDraws| #[trigger]
                taken.type_draws(taken.seed, attract@, draws) && typed == (World {
                    types: seeded(taken.types.size(), draws),
                    ..taken
                });
            let variates = choose|variates: Seq<ParticleVariate>| #[trigger]
                typed.particle_draws(velocity@, variates) && self@ == (World {
                    particles: scattered(variates, typed.width as int, typed.height as int),
                    ..typed
                });
            lemma_seeded(taken.types.size(), draws);
            assert(old(self)@.type_draws(*seed, attract@, draws));
            assert(old(self)@.particle_draws(velocity@, variates));
            assert(self@ == old(self)@.reseeded(*seed, draws, variates));
        }
        Ok(())
    }

    /// Replaces the population by that of `preset` and seeds it at random
    /// from the seed of `preset`, unless the preset or the numbers of variates
    /// are at fault: then nothing changes.
    ///
    /// `attract` holds a normal variate with the mean and the deviation of
    /// the seed for each ordered pair of types, `velocity` two normal
    /// variates with mean 0 and deviation 1 for each particle. The radii, the
    /// types and the places are drawn here and differ from one call to the
    /// next; [`Universe::load_variates`] takes every variate and gives the
    /// same universe whenever it is given the same ones.
    pub fn load_preset(
        &mut self,
        preset: &Preset,
        attract: &Vec<i64>,
        velocity: &Vec<i64>,
    ) -> (done: Result<(), ConfigError>)
        requires
            old(self).wf(),
        ensures
            final(self).wf(),
            done == match World::load_fault(
                *preset,
                attract.len() as nat,
                velocity.len() as nat,
            ) {
                Some(e) => Err::<(), ConfigError>(e),
                None => Ok::<(), ConfigError>(()),
            },
            done.is_err() ==> final(self)@ == old(self)@,
            done.is_ok() ==> {
                &&& final(self)@.typed()
                &&& final(self)@.types.colors.len() == preset.population.particle_types
                &&& final(self)@.types.attract.len() == preset.population.particle_types
                    * preset.population.particle_types
                &&& final(self)@.types.min_r.len() == preset.population.particle_types
                    * preset.population.particle_types
                &&& final(self)@.types.max_r.len() == preset.population.particle_types
                    * preset.population.particle_types
                &&& final(self)@.particles.len() == preset.population.particles
                &&& final(self)@.types.radii_symmetric()
                &&& final(self)@.types.radii_ordered()
                &&& final(self)@.types.self_repelling()
                &&& exists|draws: TypeDraws, variates: Seq<ParticleVariate>|
                    {
                        let blank = old(self)@.populated(
                            preset.population.particle_types as nat,
                            preset.population.particles as nat,
                        );
                        blank.type_draws(preset.seed, attract@, draws) && blank.particle_draws(
                            velocity@,
                            variates,
                        )
                    } && final(self)@ == #[trigger] old(self)@.loaded(*preset, draws, variates)
            },
    {
        match preset.seed.validate() {
            Err(e) => {
                return Err(e);
            },
            Ok(_) => {},
        }
        let types: usize = preset.population.particle_types;
        let particles: usize = preset.population.particles;
        let pairs: usize = match types.checked_mul(types) {
            Some(pairs) => pairs,
            None => {
                return Err(ConfigError::TooManyTypes);
            },
        };
        if particles > 0 && types < 2 {
            return Err(ConfigError::NoTypeToDraw);
        }
        if attract.len() != pairs || particles > usize::MAX / 2 || velocity.len() != 2 * particles {
            return Err(ConfigError::VariateCount);
        }
        self.set_population(types, particles);
        let ghost blank = self@;
        let done = self.reseed(&preset.seed, attract, velocity);
        proof {
            let (draws, variates) = choose|draws: TypeDraws, variates: Seq<ParticleVariate>|
                blank.type_draws(preset.seed, attract@, draws) && blank.particle_draws(
                    velocity@,
                    variates,
                ) && self@ == #[trigger] blank.reseeded(preset.seed, draws, variates);
            assert(self@ == old(self)@.loaded(*preset, draws, variates));
            lemma_seeded(types as nat, draws);
        }
        done
    }

    /// Replaces the population by that of `preset` and makes its types and
    /// particles from the given variates, unless the preset or the variates
    /// are at fault: then nothing changes.
    #[verifier::loop_isolation(false)]
    pub fn load_variates(
        &mut self,
        preset: &Preset,
        types: &TypeVariates,
        particles: &Vec<ParticleVariate>,
    ) -> (done: Result<(), ConfigError>)
        requires
            old(self).wf(),
        ensures
            final(self).wf(),
            done == match World::variates_fault(*preset, types@, particles@) {
                Some(e) => Err::<(), ConfigError>(e),
                None => Ok::<(), ConfigError>(()),
            },
            done.is_err() ==> final(self)@ == old(self)@,
            done.is_ok() ==> final(self)@.typed() && final(self)@ == old(self)@.loaded(
                *preset,
                types@,
                particles@,
            ),
    {
        match preset.seed.validate() {
            Err(e) => {
                return Err(e);
            },
            Ok(_) => {},
        }
        let size: usize = preset.population.particle_types;
        let pairs: usize = match size.checked_mul(size) {
            Some(pairs) => pairs,
            None => {
                return Err(ConfigError::TooManyTypes);
            },
        };
        if types.attract.len() != pairs || types.min_r.len() != pairs || types.max_r.len() != pairs
            || particles.len() != preset.population.particles {
            return Err(ConfigError::VariateCount);
        }
        let mut k: usize = 0;
        while k < particles.len()
            invariant
                k <= particles.len(),
                forall|m: int| 0 <= m < k ==> (#[trigger] particles[m]).particle_type < size,
            decreases particles.len() - k,
        {
            if particles[k].particle_type >= size {
                return Err(ConfigError::UnknownType);
            }
            k += 1;
        }
        self.set_population(size, preset.population.particles);
        self.seed = preset.seed;
        self.set_types(types);
        self.set_particles(particles);
        Ok(())
    }

    /// Looks at the world from `(cx, cy)` with the given zoom, as far as the
    /// view then stays within the world.
    pub fn set_zoom(&mut self, cx: i64, cy: i64, zoom: i64)
        requires
            old(self).wf(),
        ensures
            final(self).wf(),
            final(self)@ == old(self)@.zoomed(cx as int, cy as int, zoom as int),
    {
        let zoom: i64 = saturate(zoom as i128);
        self.zoom = if zoom >= ONE {
            zoom
        } else {
            ONE
        };
        let margin: i64 = ratio(HALF, self.zoom);
        self.center_x = frame(saturate(cx as i128), self.width, margin);
        self.center_y = frame(saturate(cy as i128), self.height, margin);
    }

    /// The circles to draw, one per particle and in their order, each in the
    /// colour of its type with the given opacity. Every particle has to be of
    /// a type that the table holds.
    pub fn draw(&self, opacity: i64) -> (circles: Vec<Circle>)
        requires
            self.wf(),
            self@.typed(),
        ensures
            circles@ == Seq::new(self@.particles.len(), |p: int| self@.seen(p, opacity as int)),
    {
        let radius: i64 = product(RADIUS, self.zoom);
        let alpha: i64 = saturate(opacity as i128);
        let mut circles: Vec<Circle> = Vec::new();
        let mut k: usize = 0;
        while k < self.particles.len()
            invariant
                k <= self.particles.len(),
                self.wf(),
                self@.typed(),
                radius == times(RADIUS as int, self@.zoom as int),
                alpha == clamp(opacity as int),
                circles.len() == k,
                forall|p: int|
                    0 <= p < k ==> #[trigger] circles[p] == self@.seen(p, opacity as int),
            decreases self.particles.len() - k,
        {
            let p: Particle = self.particles[k];
            proof {
                assert(self@.particles[k as int].tame());
                assert(self@.particles[k as int].particle_type < self@.types.size());
            }
            let color: Color = *self.types.get_color(p.particle_type).unwrap();
            circles.push(
                Circle {
                    x: sum(
                        product(difference(p.x, self.center_x), self.zoom),
                        product(self.width, HALF),
                    ),
                    y: sum(
                        product(difference(p.y, self.center_y), self.zoom),
                        product(self.height, HALF),
                    ),
                    radius,
                    color: Color { r: color.r, g: color.g, b: color.b, a: alpha },
                },
            );
            k += 1;
        }
        assert(circles@ =~= Seq::new(
            self@.particles.len(),
            |p: int| self@.seen(p, opacity as int),
        ));
        circles
    }

    /// Advances the universe by one step.
    ///
    /// First every particle takes up the forces of all the others, which
    /// changes velocities only. Then every particle moves. Every particle
    /// has to be of a type that the table holds.
    pub fn step(&mut self)
        requires
            old(self).wf(),
            old(self)@.typed(),
        ensures
            final(self).wf(),
            final(self)@.typed(),
            final(self)@ == old(self)@.stepped(),
            !old(self)@.wrap && 2 * DIAMETER <= old(self)@.width
                ==> final(self)@.walled_across(),
            !old(self)@.wrap && 2 * DIAMETER <= old(self)@.height
                ==> final(self)@.walled_down(),
    {
        let size: usize = self.particles.len();
        let ghost before = self@;
        let mut i: usize = 0;
        while i < size
            invariant
                i <= size,
                size == before.particles.len(),
                before.wf(),
                before.typed(),
                self@ == (World { particles: self.particles@, ..before }),
                self.particles@.len() == size,
                forall|p: int| 0 <= p < i ==> #[trigger] self.particles@[p] == before.forced(p),
                forall|p: int|
                    i <= p < size ==> #[trigger] self.particles@[p] == before.particles[p],
            decreases size - i,
        {
            let p: Particle = self.particles[i];
            let mut vx: i64 = p.vx;
            let mut vy: i64 = p.vy;
            let mut j: usize = 0;
            proof {
                assert(before.particles[i as int].tame());
            }
            while j < size
                invariant
                    i < size,
                    j <= size,
                    size == before.particles.len(),
                    before.wf(),
                    before.typed(),
                    p == before.particles[i as int],
                    self@ == (World { particles: self.particles@, ..before }),
                    self.particles@.len() == size,
                    forall|q: int|
                        0 <= q < size ==> (#[trigger] self.particles@[q]).x
                            == before.particles[q].x && self.particles@[q].y
                            == before.particles[q].y && self.particles@[q].particle_type
                            == before.particles[q].particle_type,
                    vx == before.pushed(i as int, j as int).0,
                    vy == before.pushed(i as int, j as int).1,
                    in_range(vx as int),
                    in_range(vy as int),
                decreases size - j,
            {
                if i != j {
                    let q: Particle = self.particles[j];
                    proof {
                        assert(before.particles[j as int].tame());
                        assert(before.particles[i as int].particle_type < before.types.size());
                        assert(before.particles[j as int].particle_type < before.types.size());
                        lemma_cells(
                            before.types.size() as int,
                            p.particle_type as int,
                            q.particle_type as int,
                            p.particle_type as int,
                            q.particle_type as int,
                        );
                    }
                    let dx: i64 = axis_displacement(p.x, q.x, self.width, self.wrap);
                    let dy: i64 = axis_displacement(p.y, q.y, self.height, self.wrap);
                    let attract: i64 = *self.types.get_attract(
                        p.particle_type,
                        q.particle_type,
                    ).unwrap();
                    let min_r: i64 = *self.types.get_min_r(
                        p.particle_type,
                        q.particle_type,
                    ).unwrap();
                    let max_r: i64 = *self.types.get_max_r(
                        p.particle_type,
                        q.particle_type,
                    ).unwrap();
                    let flat: bool = self.seed.flat_force;
                    let force = pair_interaction(dx, dy, attract, min_r, max_r, flat);
                    vx = sum(vx, force.0);
                    vy = sum(vy, force.1);
                }
                j += 1;
            }
            self.particles.set(i, Particle { vx, vy, ..p });
            i += 1;
        }
        let mut i: usize = 0;
        while i < size
            invariant
                i <= size,
                size == before.particles.len(),
                before.wf(),
                before.typed(),
                self@ == (World { particles: self.particles@, ..before }),
                self.particles@.len() == size,
                forall|p: int|
                    0 <= p < i ==> #[trigger] self.particles@[p] == before.stepped_particle(p),
                forall|p: int| i <= p < size ==> #[trigger] self.particles@[p] == before.forced(p),
            decreases size - i,
        {
            let p: Particle = self.particles[i];
            proof {
                lemma_pushed_in_range(before, i as int, size as int);
                assert(before.particles[i as int].tame());
            }
            let across = advance_axis(p.x, p.vx, self.width, self.seed.friction, self.wrap);
            let down = advance_axis(p.y, p.vy, self.height, self.seed.friction, self.wrap);
            self.particles.set(
                i,
                Particle {
                    x: across.0,
                    y: down.0,
                    vx: across.1,
                    vy: down.1,
                    particle_type: p.particle_type,
                },
            );
            i += 1;
        }
        proof {
            if !before.wrap {
                lemma_walls_hold(before);
            }
            assert(self.particles@ =~= before.stepped().particles);
            lemma_step_keeps_order(before);
        }
    }
}

/// Computes [`World::framed`] from the margin that the zoom leaves.
fn frame(c: i64, extent: i64, margin: i64) -> (at: i64)
    requires
        in_range(c as int),
        in_range(extent as int),
        in_range(margin as int),
    ensures
        at == larger(
            smaller(c as int, times(extent as int, ONE - margin)),
            times(extent as int, margin as int),
        ),
        in_range(at as int),
{
    let high: i64 = product(extent, ONE - margin);
    let low: i64 = product(extent, margin);
    let capped: i64 = if c <= high {
        c
    } else {
        high
    };
    if capped >= low {
        capped
    } else {
        low
    }
}

} // verus!
