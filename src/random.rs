use rand::distributions::{IndependentSample, Weighted, WeightedChoice};
use rand::Rng;
use vstd::prelude::*;

verus! {

/// Sum of a table of weights.
pub open spec fn total_weight(weights: Seq<u32>) -> int
    decreases weights.len(),
{
    if weights.len() == 0 {
        0
    } else {
        total_weight(weights.drop_last()) + weights.last()
    }
}

/// Relies on rand's `Rng::gen_range` on the thread-local generator: a value in
/// `[low, high)`. It panics when `low >= high`.
#[verifier::external_body]
pub(crate) fn random_range(low: i32, high: i32) -> (r: i32)
    requires
        low < high,
    ensures
        low <= r < high,
{
    rand::thread_rng().gen_range(low, high)
}

/// Relies on `rand::random::<bool>`: a coin toss.
#[verifier::external_body]
pub(crate) fn coin_flip() -> (b: bool) {
    rand::random::<bool>()
}

/// Relies on rand's `WeightedChoice` (`new`, then `ind_sample` on the thread-local
/// generator): the index of an entry drawn with probability proportional to its
/// weight, so never one of weight 0. `new` panics on an empty table and on a total
/// weight that is 0 or does not fit in a `u32`.
#[verifier::external_body]
pub(crate) fn weighted_index(weights: &[u32]) -> (r: usize)
    requires
        weights@.len() > 0,
        0 < total_weight(weights@) <= u32::MAX,
    ensures
        r < weights@.len(),
        weights@[r as int] > 0,
{
    let mut items: Vec<Weighted<usize>> =
        weights.iter().enumerate().map(|(i, w)| Weighted { weight: *w, item: i }).collect();
    WeightedChoice::new(&mut items).ind_sample(&mut rand::thread_rng())
}

} // verus!
