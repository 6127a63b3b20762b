//! What a simulation is made from: how many particles of how many types, and
//! the parameters from which their coefficients are drawn.

use crate::fixed::{in_range, within};
use vstd::prelude::*;

verus! {

/// How many types and how many particles a universe holds.
#[derive(Debug, Clone, Copy, PartialEq, Eq)]
pub struct Population {
    pub particle_types: usize,
    pub particles: usize,
}

/// The parameters of a random universe.
///
/// Attraction coefficients are drawn from a normal distribution with the
/// given mean and deviation, the inner and the outer radius uniformly from
/// their two ranges. `friction` is the share of its velocity that a particle
/// loses in each step.
#[derive(Debug, Clone, Copy, PartialEq, Eq)]
pub struct Seed {
    pub attract_mean: i64,
    pub attract_std: i64,
    pub min_r_lower: i64,
    pub min_r_upper: i64,
    pub max_r_lower: i64,
    pub max_r_upper: i64,
    pub friction: i64,
    pub flat_force: bool,
}

/// A population together with the seed to fill it from.
#[derive(Debug, Clone, Copy, PartialEq, Eq)]
pub struct Preset {
    pub population: Population,
    pub seed: Seed,
}

/// Why a configuration was turned down.
#[derive(Debug, Clone, Copy, PartialEq, Eq)]
pub enum ConfigError {
    /// A parameter of the seed is larger in magnitude than any quantity the
    /// engine can store.
    OutOfRange,
    /// The lower end of the range of inner radii lies above its upper end.
    InvertedMinRadius,
    /// The lower end of the range of outer radii lies above its upper end.
    InvertedMaxRadius,
    /// There are particles to create, but fewer than two types, so that no
    /// type can be drawn for them.
    NoTypeToDraw,
    /// A matrix with one cell per pair of types would not fit in memory.
    TooManyTypes,
    /// The number of variates handed in is not the number that is needed.
    VariateCount,
    /// A particle is to be of a type that the universe does not hold.
    UnknownType,
}

impl Default for Seed {
    fn default() -> (seed: Seed)
        ensures
            seed == Seed::zero(),
    {
        Seed {
            attract_mean: 0,
            attract_std: 0,
            min_r_lower: 0,
            min_r_upper: 0,
            max_r_lower: 0,
            max_r_upper: 0,
            friction: 0,
            flat_force: false,
        }
    }
}

impl Seed {
    /// The seed whose parameters are all zero.
    pub open spec fn zero() -> Seed {
        Seed {
            attract_mean: 0,
            attract_std: 0,
            min_r_lower: 0,
            min_r_upper: 0,
            max_r_lower: 0,
            max_r_upper: 0,
            friction: 0,
            flat_force: false,
        }
    }

    /// Every parameter is a quantity the engine can store.
    pub open spec fn tame(self) -> bool {
        &&& in_range(self.attract_mean as int)
        &&& in_range(self.attract_std as int)
        &&& in_range(self.min_r_lower as int)
        &&& in_range(self.min_r_upper as int)
        &&& in_range(self.max_r_lower as int)
        &&& in_range(self.max_r_upper as int)
        &&& in_range(self.friction as int)
    }

    /// The seed can be drawn from: its parameters are in range and neither
    /// range of radii is inverted.
    pub open spec fn valid(self) -> bool {
        &&& self.tame()
        &&& self.min_r_lower <= self.min_r_upper
        &&& self.max_r_lower <= self.max_r_upper
    }

    /// What is wrong with the seed, if anything: the first of the faults in
    /// the order range, inner radii, outer radii.
    pub open spec fn fault(self) -> Option<ConfigError> {
        if !self.tame() {
            Some(ConfigError::OutOfRange)
        } else if self.min_r_lower > self.min_r_upper {
            Some(ConfigError::InvertedMinRadius)
        } else if self.max_r_lower > self.max_r_upper {
            Some(ConfigError::InvertedMaxRadius)
        } else {
            None
        }
    }

    /// Checks that the seed can be drawn from.
    pub fn validate(&self) -> (checked: Result<(), ConfigError>)
        ensures
            checked.is_ok() <==> self.valid(),
            checked == match self.fault() {
                Some(e) => Err::<(), ConfigError>(e),
                None => Ok::<(), ConfigError>(()),
            },
    {
        if !(within(self.attract_mean) && within(self.attract_std) && within(self.min_r_lower)
            && within(self.min_r_upper) && within(self.max_r_lower) && within(self.max_r_upper)
            && within(self.friction)) {
            Err(ConfigError::OutOfRange)
        } else if self.min_r_lower > self.min_r_upper {
            Err(ConfigError::InvertedMinRadius)
        } else if self.max_r_lower > self.max_r_upper {
            Err(ConfigError::InvertedMaxRadius)
        } else {
            Ok(())
        }
    }
}

} // verus!
