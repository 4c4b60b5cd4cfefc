//! Random numbers, drawn from the `rand` crate's thread-local generator.
//!
//! The contracts here are believed, not proved: they state what `rand`
//! documents of the calls that the bodies make.

use rand::Rng;
use vstd::prelude::*;

verus! {

/// A byte drawn by `rand::Rng::gen` from `rand::thread_rng()`. Nothing is
/// claimed of it: any byte may come back.
#[verifier::external_body]
pub(crate) fn random_byte() -> (byte: u8) {
    rand::thread_rng().gen()
}

/// A number drawn by `rand::Rng::gen_range` from `rand::thread_rng()` over
/// the range from `low` to `high`, both included. `gen_range` panics on an
/// empty range, which `low <= high` rules out; what it returns lies in the
/// range. No more is claimed: two calls may differ.
#[verifier::external_body]
pub(crate) fn random_in_range(low: u64, high: u64) -> (drawn: u64)
    requires
        low <= high,
    ensures
        low <= drawn <= high,
{
    rand::thread_rng().gen_range(low..=high)
}

} // verus!
