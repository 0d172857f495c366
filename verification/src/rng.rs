//! The source of randomness for mine placement.

use vstd::prelude::*;
use rand::Rng;

verus! {

/// The generator that `rand` keeps for each thread. Opaque here: values of it
/// are only obtained and handed back to `rand`.
#[verifier::external_type_specification]
#[verifier::external_body]
pub struct ExThreadRng(rand::rngs::ThreadRng);

/// `rand::thread_rng` hands out the calling thread's generator. Nothing is
/// claimed about it.
pub assume_specification[ rand::thread_rng ]() -> (rng: rand::rngs::ThreadRng);

/// Draws an index below `bound` with `Rng::gen_range(0..bound)`.
///
/// Trusted: `gen_range` panics on an empty range, which `bound > 0` rules
/// out, and otherwise returns a value of the half-open range `0..bound`.
/// Which one is left open.
#[verifier::external_body]
pub(crate) fn index_below(rng: &mut rand::rngs::ThreadRng, bound: usize) -> (index: usize)
    requires
        bound > 0,
    ensures
        index < bound,
{
    rng.gen_range(0..bound)
}

} // verus!
