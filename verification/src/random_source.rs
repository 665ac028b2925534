//! The library's randomness: thin draws from the rand crate, used by the
//! rollout helpers. Nothing is assumed of any outcome beyond its range.
use vstd::prelude::*;

verus! {

/// Relies on rand::thread_rng and Rng::gen_range: a uniformly chosen
/// index below `n`.
#[verifier::external_body]
pub(crate) fn random_index_below(n: usize) -> (r: usize)
    requires
        n > 0,
    ensures
        r < n,
{
    rand::Rng::gen_range(&mut rand::thread_rng(), 0..n)
}

/// Relies on rand::thread_rng and Rng::gen_ratio: true with probability
/// `num` in `den`. Nothing is assumed of the outcome.
#[verifier::external_body]
pub(crate) fn random_ratio(num: u32, den: u32) -> bool
    requires
        num <= den,
        0 < den,
{
    rand::Rng::gen_ratio(&mut rand::thread_rng(), num, den)
}

} // verus!
