//! The state of one particle.

use crate::fixed::in_range;
use vstd::prelude::*;

verus! {

/// A point particle: where it is, how fast it moves, and of which type it is.
#[derive(Debug, Clone, Copy, PartialEq, Eq)]
pub struct Particle {
    pub x: i64,
    pub y: i64,
    pub vx: i64,
    pub vy: i64,
    pub particle_type: usize,
}

impl Particle {
    /// Position and velocity are quantities the engine may store.
    pub open spec fn tame(self) -> bool {
        &&& in_range(self.x as int)
        &&& in_range(self.y as int)
        &&& in_range(self.vx as int)
        &&& in_range(self.vy as int)
    }

    /// A particle of the first type, at rest at the origin.
    pub open spec fn resting() -> Particle {
        Particle { x: 0, y: 0, vx: 0, vy: 0, particle_type: 0 }
    }
}

/// Every one of the particles is tame.
pub open spec fn all_tame(particles: Seq<Particle>) -> bool {
    forall|p: int| 0 <= p < particles.len() ==> (#[trigger] particles[p]).tame()
}

/// Every one of the particles is of one of the first `types` types.
pub open spec fn all_typed(particles: Seq<Particle>, types: nat) -> bool {
    forall|p: int| 0 <= p < particles.len() ==> (#[trigger] particles[p]).particle_type < types
}

impl Default for Particle {
    fn default() -> (p: Particle)
        ensures
            p == Particle::resting(),
    {
        Particle { x: 0, y: 0, vx: 0, vy: 0, particle_type: 0 }
    }
}

} // verus!
