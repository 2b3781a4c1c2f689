//! The random source: `rand`'s small, fast generator.

use rand::rngs::{OsRng, SmallRng};
use rand::seq::SliceRandom;
use rand::{Rng, SeedableRng};
use vstd::prelude::*;

verus! {

#[verifier::external_type_specification]
#[verifier::external_body]
pub struct ExSmallRng(SmallRng);

/// Relies on `SeedableRng::from_rng` with `OsRng`: a generator seeded by the
/// operating system, or `None` when the system cannot supply a seed.
#[verifier::external_body]
pub(crate) fn try_entropy_rng() -> (r: Option<SmallRng>) {
    SmallRng::from_rng(OsRng).ok()
}

/// Relies on `SliceRandom::choose`: one element of a non-empty slice.
#[verifier::external_body]
pub(crate) fn choose_one(rng: &mut SmallRng, choices: &[i32]) -> (r: i32)
    requires
        choices@.len() > 0,
    ensures
        choices@.contains(r),
{
    *choices.choose(rng).unwrap()
}

/// Relies on `Rng::gen_range`: a value in `[0, bound)`; it panics only on an
/// empty range.
#[verifier::external_body]
pub(crate) fn draw_below(rng: &mut SmallRng, bound: usize) -> (r: usize)
    requires
        bound > 0,
    ensures
        r < bound,
{
    rng.gen_range(0, bound)
}

} // verus!
