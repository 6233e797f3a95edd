//! Random numbers.

use vstd::prelude::*;

verus! {

/// `rand::random`: any number.
#[verifier::external_body]
pub(crate) fn random_u16() -> (r: u16) {
    rand::random()
}

/// `rand::random`: any number.
#[verifier::external_body]
pub(crate) fn random_u32() -> (r: u32) {
    rand::random()
}

/// `rand::RngExt::random_range` over the thread's generator: a number of the
/// range, which must not be empty.
#[verifier::external_body]
pub(crate) fn random_range(from: u64, to: u64) -> (r: u64)
    requires
        from < to,
    ensures
        from <= r < to,
{
    rand::RngExt::random_range(&mut rand::rng(), from..to)
}

} // verus!
