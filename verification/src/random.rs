//! The machine's source of random bytes.

use rand::Rng;
use vstd::prelude::*;

verus! {

/// A byte drawn from the thread's random number generator, by
/// `rand::thread_rng` and `Rng::gen_range` over `0..=255`.
///
/// Nothing is claimed of the byte: `Chip_8::execute_with` says what the
/// machine does with each value that may come back. The generator is
/// seeded from the operating system when a thread first uses it, and the
/// call fails only if that source does.
#[verifier::external_body]
pub(crate) fn random_byte() -> u8 {
    rand::thread_rng().gen_range(0..=255)
}

} // verus!
