//! The random stream that decides where trees grow.

use bracket_random::prelude::RandomNumberGenerator;
use vstd::prelude::*;

verus! {

/// bracket-random's generator, carried through opaquely.
#[verifier::external_type_specification]
#[verifier::external_body]
pub struct ExRandomNumberGenerator(RandomNumberGenerator);

/// Relies on `RandomNumberGenerator::new`: a generator seeded once from the
/// operating system's entropy source.
pub assume_specification[ RandomNumberGenerator::new ]() -> RandomNumberGenerator;

/// Relies on `RandomNumberGenerator::range`: a value drawn from `[min, max)`;
/// it panics on an empty range, which `requires` excludes.
#[verifier::external_body]
pub(crate) fn random_in_range(rng: &mut RandomNumberGenerator, min: i32, max: i32) -> (r: i32)
    requires
        min < max,
    ensures
        min <= r < max,
{
    rng.range(min, max)
}

} // verus!
