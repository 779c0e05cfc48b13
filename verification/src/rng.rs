//! The interpreter's single source of randomness.

use vstd::prelude::*;

verus! {

/// Relies on rand::random (the rand crate): one byte drawn from the
/// thread-local generator. The draw depends on generator state, so nothing
/// is promised of the value; callers state what holds of every outcome.
#[verifier::external_body]
pub(crate) fn random_byte() -> u8 {
    rand::random()
}

} // verus!
