//! The machine's source of randomness: a WyRand generator from the
//! `nanorand` crate, held behind trusted declarations. Nothing is promised
//! of the bytes it yields; every consumer is verified for all outcomes.

use vstd::prelude::*;

verus! {

#[verifier::external_type_specification]
#[verifier::external_body]
pub struct ExWyRand(nanorand::WyRand);

/// Relies on nanorand's `WyRand::new`, which seeds a generator from system
/// entropy. Nothing is assumed about the generator produced.
#[verifier::external_body]
pub(crate) fn fresh_rng() -> nanorand::WyRand {
    nanorand::WyRand::new()
}

/// Relies on nanorand's `WyRand::new_seed`, which builds a generator from
/// the given seed. Nothing is assumed about the generator produced.
#[verifier::external_body]
pub(crate) fn seeded_rng(seed: u64) -> nanorand::WyRand {
    nanorand::WyRand::new_seed(seed)
}

/// Relies on nanorand's `Rng::generate::<u8>`, which yields one byte from
/// the generator's stream. The byte is random: nothing is assumed of it.
#[verifier::external_body]
pub(crate) fn next_byte(rng: &mut nanorand::WyRand) -> u8 {
    nanorand::Rng::generate::<u8>(rng)
}

} // verus!
