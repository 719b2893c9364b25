//! A stand-in for proof generation: a proof of 32 bytes drawn at random.

use vstd::prelude::*;

verus! {

/// Length in bytes of a stand-in proof.
pub const PROOF_SIZE: usize = 32;

/// `Rng::gen` of `rand` on the generator of the current thread: one byte,
/// of which nothing is known beforehand.
#[verifier::external_body]
pub(crate) fn random_byte() -> (byte: u8) {
    rand::Rng::gen::<u8>(&mut rand::thread_rng())
}

/// A stand-in proof: 32 bytes, each drawn at random.
pub fn generate_proof() -> (proof: Vec<u8>)
    ensures
        proof@.len() == 32,
{
    let mut proof: Vec<u8> = Vec::new();
    let mut i: usize = 0;
    while i < PROOF_SIZE
        invariant
            i <= 32,
            proof@.len() == i,
        decreases 32 - i,
    {
        proof.push(random_byte());
        i += 1;
    }
    proof
}

} // verus!
