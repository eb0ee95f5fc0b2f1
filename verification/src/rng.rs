//! The source of the bytes that the random instruction uses.

use vstd::prelude::*;
use rand::Rng;

verus! {

/// A byte from `rand`'s generator of the current thread, as
/// `rand::thread_rng().gen::<u8>()` gives it. Nothing is claimed of the
/// byte: any value may come back, and another one at the next call. The
/// generator seeds itself from the operating system at its first use in a
/// thread and panics if that fails.
#[verifier::external_body]
pub(crate) fn random_byte() -> (byte: u8) {
    rand::thread_rng().gen::<u8>()
}

} // verus!
