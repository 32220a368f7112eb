//! The crate's only source of randomness: a bounded uniform integer draw.

use vstd::prelude::*;
use rand::RngExt;

verus! {

/// Relies on rand's `RngExt::random_range` on the thread-local generator
/// returned by `rand::rng()`: for a non-empty range `low..high` it returns
/// a uniformly distributed value of that range and panics only when the
/// range is empty.
#[verifier::external_body]
pub(crate) fn random_in_range(low: i32, high: i32) -> (r: i32)
    requires
        low < high,
    ensures
        low <= r < high,
{
    rand::rng().random_range(low..high)
}

/// A uniformly random byte, used for color channels.
pub(crate) fn random_byte() -> u8 {
    let v: i32 = random_in_range(0, 256);
    v as u8
}

} // verus!
