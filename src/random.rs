//! The random-byte source of the random-AND instruction, an injected
//! generator from the `rand` crate.
use rand::rngs::StdRng;
use rand::{Rng, SeedableRng};
use vstd::prelude::*;

verus! {

#[verifier::external_type_specification]
#[verifier::external_body]
pub struct ExStdRng(rand::rngs::StdRng);

/// Relies on rand's `SeedableRng::from_entropy` for `StdRng`: a generator
/// seeded from the operating system's entropy source. It panics only when
/// the operating system cannot supply entropy at all.
#[verifier::external_body]
pub(crate) fn entropy_rng() -> (r: StdRng) {
    StdRng::from_entropy()
}

/// Relies on rand's `SeedableRng::seed_from_u64` for `StdRng`: a
/// deterministic generator expanded from a 64-bit seed.
#[verifier::external_body]
pub(crate) fn seeded_rng(seed: u64) -> (r: StdRng) {
    StdRng::seed_from_u64(seed)
}

/// Relies on rand's `Rng::gen::<u8>`: draws one byte, any value possible.
#[verifier::external_body]
pub(crate) fn random_byte(rng: &mut StdRng) -> (r: u8) {
    rng.gen::<u8>()
}

} // verus!
