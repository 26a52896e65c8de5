//! The randomness the operators draw on.
//!
//! Every item here hands a request to the `rand` crate. Their contracts are
//! taken from that crate's documentation and are not proved; each states only
//! what holds of every outcome of the draw.

use rand::distributions::Distribution;
use rand::distributions::WeightedError;
use rand::distributions::WeightedIndex;
use rand::rngs::StdRng;
use rand::seq::IteratorRandom;
use rand::Rng;
use vstd::prelude::*;

verus! {

/// `rand::rngs::StdRng`, the generator every random operator draws from.
#[verifier::external_type_specification]
#[verifier::external_body]
pub struct ExStdRng(StdRng);

/// A roulette wheel: a `rand::distributions::WeightedIndex` over `u64`
/// weights, a distribution over the indices of a list of weights.
#[verifier::external_body]
pub struct Wheel {
    index: WeightedIndex<u64>,
}

/// `rand::distributions::WeightedError`, the reason a list of weights is
/// refused.
#[verifier::external_type_specification]
#[verifier::external_body]
pub struct ExWeightedError(WeightedError);

/// The weights a wheel was built from, in order.
pub uninterp spec fn weights_of(wheel: Wheel) -> Seq<u64>;

/// The sum of a list of weights.
pub open spec fn total(weights: Seq<u64>) -> nat
    decreases weights.len(),
{
    if weights.len() == 0 {
        0
    } else {
        total(weights.drop_last()) + weights.last() as nat
    }
}

/// `Rng::gen_range` on `0..bound`: some number below `bound`. The call panics
/// on an empty range, so `bound` must be positive.
#[verifier::external_body]
pub(crate) fn below(rng: &mut StdRng, bound: u128) -> (drawn: u128)
    requires
        bound > 0,
    ensures
        drawn < bound,
{
    rng.gen_range(0..bound)
}

/// `Rng::gen_ratio`: `true` with probability `numerator / denominator`. The
/// documentation guarantees `true` when the two are equal and `false` when the
/// numerator is zero; the call panics on a zero denominator or a ratio above
/// one.
#[verifier::external_body]
pub(crate) fn ratio(rng: &mut StdRng, numerator: u32, denominator: u32) -> (hit: bool)
    requires
        denominator > 0,
        numerator <= denominator,
    ensures
        numerator == denominator ==> hit,
        numerator == 0 ==> !hit,
{
    rng.gen_ratio(numerator, denominator)
}

/// `IteratorRandom::choose_multiple` on the range `1..length`: `amount` of its
/// numbers, or all of them if there are fewer, each at most once and in no
/// particular order. The call reserves room for `amount` numbers at once, so
/// `amount` may not exceed `length`.
#[verifier::external_body]
pub(crate) fn choose_points(rng: &mut StdRng, length: usize, amount: usize) -> (points: Vec<usize>)
    requires
        amount <= length,
    ensures
        length == 0 ==> points@.len() == 0,
        length > 0 ==> points@.len() == (if amount <= length - 1 { amount as int } else { length - 1 }),
        forall|i: int| 0 <= i < points@.len() ==> 1 <= #[trigger] points@[i] < length,
        forall|i: int, j: int| 0 <= i < j < points@.len() ==> points@[i] != points@[j],
{
    (1..length).choose_multiple(rng, amount)
}

/// `WeightedIndex::new`: accepts the weights unless there are none or they
/// are all zero. The constructor adds the weights up in a `u64`, so their sum
/// must fit in one.
#[verifier::external_body]
pub(crate) fn wheel(weights: &Vec<u64>) -> (built: Result<Wheel, WeightedError>)
    requires
        total(weights@) <= u64::MAX,
    ensures
        (built is Ok) == (weights@.len() > 0 && total(weights@) > 0),
        built matches Ok(wheel) ==> weights_of(wheel) == weights@,
{
    match WeightedIndex::new(weights) {
        Ok(index) => Ok(Wheel { index }),
        Err(refusal) => Err(refusal),
    }
}

/// `WeightedIndex::sample`: the index of one of the weights, never one whose
/// weight is zero.
#[verifier::external_body]
pub(crate) fn spin(wheel: &Wheel, rng: &mut StdRng) -> (chosen: usize)
    ensures
        chosen < weights_of(*wheel).len(),
        weights_of(*wheel)[chosen as int] > 0,
{
    wheel.index.sample(rng)
}

} // verus!
