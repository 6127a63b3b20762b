//! Particle life: point particles of a few discrete types that attract and
//! repel each other through a force law looked up per pair of types.
//!
//! Every quantity of the simulation (coordinates, velocities, radii,
//! attraction coefficients, friction, zoom, colour channels) is a fixed-point
//! number: an `i64` that counts millionths, see [`fixed`]. The engine is
//! therefore exactly reproducible, and its contracts are stated over plain
//! integers.
//!
//! - [`fixed`]: the arithmetic.
//! - [`force`]: the force between two particles.
//! - [`motion`]: how a particle moves, and what the edge of the world does.
//! - [`particle`], [`particle_types`], [`hsv`]: the particles, the table of
//!   their types, and the colours of the types.
//! - [`preset`]: populations and seeds, and which seeds are in order.
//! - [`seeding`]: how variates become types and particles.
//! - [`random`]: the variates the library draws itself.
//! - [`world`]: the universe as a mathematical value, and what holds of it.
//! - [`universe`]: the universe itself, with its step.
//! - [`counter`]: a bounded counter, for going through a list of presets.

pub mod counter;
pub mod fixed;
pub mod force;
pub mod hsv;
pub mod motion;
pub mod particle;
pub mod particle_types;
pub mod preset;
pub mod random;
pub mod seeding;
pub mod universe;
pub mod world;
