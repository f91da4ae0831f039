//! Draws from the shared pseudo-random source.
//!
//! Every genetic operator funnels its randomness through these three
//! wrappers. Nothing can be promised about which value comes back, only the
//! range it falls in, so every caller is verified for every outcome.

use vstd::prelude::*;
use rand::Rng;

verus! {

/// Uniform index below `n`.
///
/// Relies on `rand::Rng::gen_range` over `0..n`, which returns a value of
/// that range and panics only when the range is empty.
#[verifier::external_body]
pub(crate) fn random_index(n: usize) -> (r: usize)
    requires
        n > 0,
    ensures
        r < n,
{
    rand::thread_rng().gen_range(0..n)
}

/// Uniform value of the inclusive range `[lo, hi]`.
///
/// Relies on `rand::Rng::gen_range` over `lo..=hi`, which returns a value of
/// that range and panics only when the range is empty.
#[verifier::external_body]
pub(crate) fn random_in_range(lo: i64, hi: i64) -> (r: i64)
    requires
        lo <= hi,
    ensures
        lo <= r <= hi,
{
    rand::thread_rng().gen_range(lo..=hi)
}

/// Fair coin flip.
///
/// Relies on `rand::random::<bool>`; nothing is promised of the outcome.
#[verifier::external_body]
pub(crate) fn random_bool() -> bool {
    rand::random::<bool>()
}

} // verus!
