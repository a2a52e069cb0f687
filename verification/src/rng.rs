//! The crate's single source of randomness.
use vstd::prelude::*;

verus! {

/// Relies on rand::random: a thread-local uniformly random 64-bit value.
/// Nothing can be promised of the result.
#[verifier::external_body]
pub fn random_u64() -> u64 {
    rand::random::<u64>()
}

} // verus!
