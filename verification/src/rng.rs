//! The random number generator that deals tiles, from the `rand` crate.
use vstd::prelude::*;
use rand::rngs::SmallRng;
use rand::Rng;
use rand::SeedableRng;
use rand::rngs::OsRng;

verus! {

#[verifier::external_type_specification]
#[verifier::external_body]
pub struct ExSmallRng(SmallRng);

/// `Rng::gen_range(0..bound)` of `rand`: a number drawn from `0..bound`. The
/// contract claims only that the number lies in the range; which number comes
/// out depends on the generator's state, and nothing is said of the new state.
/// `gen_range` panics on an empty range, so `bound` must be positive.
#[verifier::external_body]
pub(crate) fn random_below(rng: &mut SmallRng, bound: usize) -> (r: usize)
    requires
        bound > 0,
    ensures
        r < bound,
{
    rng.gen_range(0..bound)
}

/// `SeedableRng::from_rng(OsRng)` of `rand`: a generator seeded by the
/// operating system, or `None` where the operating system gives no
/// randomness (the call returns an error then, and does not panic). Nothing
/// is claimed of the generator.
#[verifier::external_body]
pub(crate) fn rng_from_os() -> Option<SmallRng> {
    SmallRng::from_rng(OsRng).ok()
}

/// `SeedableRng::seed_from_u64` of `rand`: a generator seeded with `seed`.
/// Nothing is claimed of the generator.
#[verifier::external_body]
pub(crate) fn rng_from_seed(seed: u64) -> SmallRng {
    SmallRng::seed_from_u64(seed)
}

/// A generator seeded by the operating system; where the operating system
/// gives no randomness, one seeded with 0.
pub(crate) fn fresh_rng() -> SmallRng {
    match rng_from_os() {
        Some(rng) => rng,
        None => rng_from_seed(0),
    }
}

} // verus!
