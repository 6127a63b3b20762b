//! The random numbers the library draws itself: whole numbers from the
//! uniform distributions of `rand`, on the generator of the current thread.

use rand::distributions::{Distribution, Uniform};
use rand::rngs::ThreadRng;
use vstd::prelude::*;

verus! {

/// `rand::rngs::ThreadRng`, the handle to the generator of the current thread.
/// Nothing is known of its state.
#[verifier::external_type_specification]
#[verifier::external_body]
pub struct ExThreadRng(rand::rngs::ThreadRng);

/// `rand::thread_rng` hands out the handle to the generator of the current
/// thread. Nothing is claimed of the handle. On first use in a thread `rand`
/// seeds the generator from the operating system and panics if that fails,
/// which no precondition can exclude.
pub assume_specification[ rand::thread_rng ]() -> (rng: ThreadRng);

/// Draws from `rand`'s `Uniform::new(low, high)`, the uniform distribution
/// over the whole numbers from `low` up to, but not including, `high`. `rand`
/// panics on an empty range, which the precondition excludes. Which number
/// comes is left open; it is claimed only that it lies in the range.
///
/// The generator takes new entropy from the operating system from time to
/// time and panics if there is none; no precondition can exclude that.
#[verifier::external_body]
pub(crate) fn draw_index(rng: &mut ThreadRng, low: usize, high: usize) -> (drawn: usize)
    requires
        low < high,
    ensures
        low <= drawn < high,
{
    Uniform::new(low, high).sample(rng)
}

/// Draws from `rand`'s `Uniform::new_inclusive(low, high)`, the uniform
/// distribution over the whole numbers from `low` to `high`, both included.
/// `rand` panics where `low` lies above `high`, which the precondition
/// excludes. Which number comes is left open; it is claimed only that it lies
/// in the range.
///
/// The generator takes new entropy from the operating system from time to
/// time and panics if there is none; no precondition can exclude that.
#[verifier::external_body]
pub(crate) fn draw_between(rng: &mut ThreadRng, low: i64, high: i64) -> (drawn: i64)
    requires
        low <= high,
    ensures
        low <= drawn <= high,
{
    Uniform::new_inclusive(low, high).sample(rng)
}

/// Draws `count` whole numbers from `low` to `high`, both included.
pub(crate) fn draw_many(rng: &mut ThreadRng, count: usize, low: i64, high: i64) -> (drawn: Vec<i64>)
    requires
        low <= high,
    ensures
        drawn.len() == count,
        forall|k: int| 0 <= k < count ==> low <= #[trigger] drawn[k] <= high,
{
    let mut drawn: Vec<i64> = Vec::new();
    let mut k: usize = 0;
    while k < count
        invariant
            k <= count,
            low <= high,
            drawn.len() == k,
            forall|m: int| 0 <= m < k ==> low <= #[trigger] drawn[m] <= high,
        decreases count - k,
    {
        let next: i64 = draw_between(rng, low, high);
        drawn.push(next);
        k += 1;
    }
    drawn
}

} // verus!
