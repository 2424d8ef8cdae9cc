//! The randomness source for the `CXNN` instruction family.

use vstd::prelude::*;

verus! {

/// Relies on rand::random: draws a byte from the thread-local generator.
/// Nothing can be promised of a random value, so nothing is; every caller
/// must hold for every byte that could come back.
#[verifier::external_body]
pub(crate) fn random_byte() -> u8 {
    rand::random::<u8>()
}

} // verus!
