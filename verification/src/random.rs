//! The random source of a session store, from the `rand` crate.
//!
//! Nothing is stated of what it yields: whoever calls it is proved right for
//! every outcome.

use vstd::prelude::*;
use rand::rngs::StdRng;
use rand::RngCore;
use rand::SeedableRng;

verus! {

/// The standard generator of the `rand` crate. Nothing is known of its state.
#[verifier::external_type_specification]
#[verifier::external_body]
pub struct ExStdRng(StdRng);

/// Calls `StdRng::from_seed`: a generator that starts from the given seed.
#[verifier::external_body]
pub(crate) fn seeded(seed: [u8; 32]) -> (rng: StdRng) {
    StdRng::from_seed(seed)
}

/// Calls `RngCore::fill_bytes` on sixteen bytes and returns them.
#[verifier::external_body]
pub(crate) fn draw(rng: &mut StdRng) -> (bytes: [u8; 16]) {
    let mut bytes: [u8; 16] = [0u8; 16];
    rng.fill_bytes(&mut bytes);
    bytes
}

} // verus!
