//! The draws that the library makes, each a call of `rand` on the generator
//! of the thread. That generator is seeded from the operating system when a
//! thread first uses it, and `rand` panics where that fails.

use rand::Rng;
use vstd::prelude::*;

verus! {

/// Draws 32 bytes from the thread-local generator with `rand::random`.
///
/// Every outcome is possible, so nothing is claimed of the bytes.
#[verifier::external_body]
pub(crate) fn random_hash() -> (hash: [u8; 32]) {
    rand::random::<[u8; 32]>()
}

/// Draws an integer from `low..high` with `rand::Rng::gen_range` on the
/// thread-local generator.
///
/// `gen_range` panics on an empty range, which `requires` leaves out. The
/// result lies in the half-open range; which value comes back is up to chance.
#[verifier::external_body]
pub(crate) fn random_in_range(low: u64, high: u64) -> (drawn: u64)
    requires
        low < high,
    ensures
        low <= drawn < high,
{
    rand::thread_rng().gen_range(low..high)
}

/// Draws a `u64` with `rand::Rng::gen` on the thread-local generator.
///
/// Every outcome is possible, so nothing is claimed of the value.
#[verifier::external_body]
pub(crate) fn random_u64() -> (drawn: u64) {
    rand::thread_rng().gen::<u64>()
}

} // verus!
