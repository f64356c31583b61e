//! The random source used to place mosaic seed points.

use vstd::prelude::*;
use rand::Rng;

verus! {

#[verifier::external_type_specification]
#[verifier::external_body]
pub struct ExThreadRng(rand::rngs::ThreadRng);

/// Relies on rand::thread_rng for a handle to the thread-local generator.
#[verifier::external_body]
pub(crate) fn new_rng() -> rand::rngs::ThreadRng {
    rand::thread_rng()
}

/// Relies on rand::Rng::gen. The value is random: nothing is promised of it.
#[verifier::external_body]
pub(crate) fn next_u32(rng: &mut rand::rngs::ThreadRng) -> u32 {
    rng.gen::<u32>()
}

} // verus!
