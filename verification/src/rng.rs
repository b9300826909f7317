//! The random source: thin trusted wrappers around the `rand` crate.
//!
//! The update rule needs a uniform site index and a uniform 32-bit draw.
//! Nothing is assumed about the distribution of either draw; the only
//! believed fact is that an index drawn from `0..n` is below `n`.

use vstd::prelude::*;
use rand::RngExt;

verus! {

#[verifier::external_type_specification]
#[verifier::external_body]
pub struct ExThreadRng(rand::rngs::ThreadRng);

/// Relies on `rand::rng`: a handle to the thread-local generator.
#[verifier::external_body]
pub(crate) fn new_rng() -> rand::rngs::ThreadRng {
    rand::rng()
}

/// Relies on `rand::RngExt::random_range` over `0..n`: it samples the
/// half-open range, so the result is strictly below `n`; it panics only on
/// an empty range, which the precondition rules out.
#[verifier::external_body]
pub(crate) fn random_index(rng: &mut rand::rngs::ThreadRng, n: usize) -> (r: usize)
    requires
        n >= 1,
    ensures
        r < n,
{
    rng.random_range(0..n)
}

/// Relies on `rand::RngExt::random` for `u32`: some 32-bit value; nothing
/// is assumed about its distribution.
#[verifier::external_body]
pub(crate) fn random_u32(rng: &mut rand::rngs::ThreadRng) -> u32 {
    rng.random()
}

} // verus!
