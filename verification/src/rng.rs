//! Random draws, taken from the process-wide thread-local generator.
//!
//! Everything that is stated about a draw holds of every outcome; two draws
//! with the same arguments may differ.

use vstd::prelude::*;

verus! {

/// Relies on rand::Rng::gen_range over `lo..hi`: a uniform draw from the
/// half-open range, which panics only when the range is empty.
#[verifier::external_body]
pub(crate) fn range_i32(lo: i32, hi: i32) -> (r: i32)
    requires
        lo < hi,
    ensures
        lo <= r < hi,
{
    rand::Rng::gen_range(&mut rand::thread_rng(), lo..hi)
}

/// Relies on rand::Rng::gen_range over `lo..hi`: a uniform draw from the
/// half-open range, which panics only when the range is empty.
#[verifier::external_body]
pub(crate) fn range_u32(lo: u32, hi: u32) -> (r: u32)
    requires
        lo < hi,
    ensures
        lo <= r < hi,
{
    rand::Rng::gen_range(&mut rand::thread_rng(), lo..hi)
}

/// Relies on rand::random::<bool>: a draw that nothing further is known of.
#[verifier::external_body]
pub(crate) fn coin_flip() -> bool {
    rand::random::<bool>()
}

/// The sum of a sequence of weights.
pub open spec fn weight_sum(weights: Seq<u32>) -> int
    decreases weights.len(),
{
    if weights.len() == 0 {
        0
    } else {
        weight_sum(weights.drop_last()) + weights.last()
    }
}

/// Relies on rand::distributions::WeightedIndex: `new` succeeds on a
/// non-empty list of non-negative weights with a positive, non-overflowing
/// total, and `sample` returns the index of an entry, where an entry is
/// chosen with probability proportional to its weight, so never one whose
/// weight is zero.
#[verifier::external_body]
pub(crate) fn weighted_pick(weights: &Vec<u32>) -> (r: usize)
    requires
        0 < weight_sum(weights@) <= u32::MAX,
    ensures
        r < weights@.len(),
        weights@[r as int] > 0,
{
    let dist = rand::distributions::WeightedIndex::new(weights).unwrap();
    rand::distributions::Distribution::sample(&dist, &mut rand::thread_rng())
}

} // verus!
