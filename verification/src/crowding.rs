//! Crowding: the loss of diversity in a mating pool.

use crate::genotype::Genotype;
use vstd::prelude::*;

verus! {

/// How many of the first `upto` positions hold the same gene in both
/// sequences.
pub open spec fn matches_upto(first: Seq<u8>, second: Seq<u8>, upto: nat) -> nat
    decreases upto,
{
    if upto == 0 {
        0
    } else {
        matches_upto(first, second, (upto - 1) as nat) + if first[upto - 1] == second[upto - 1] {
            1nat
        } else {
            0nat
        }
    }
}

/// How many positions hold the same gene in both sequences, as far as the
/// shorter one reaches.
pub open spec fn matches(first: Seq<u8>, second: Seq<u8>) -> nat {
    if first.len() <= second.len() {
        matches_upto(first, second, first.len())
    } else {
        matches_upto(first, second, second.len())
    }
}

/// The matches within the first `pairs` pairs of a pool, added up. Pairs are
/// formed of neighbours: the first genotype with the second, the third with
/// the fourth, and so on.
pub open spec fn pair_matches(pool: Seq<Genotype>, pairs: nat) -> nat
    decreases pairs,
{
    if pairs == 0 {
        0
    } else {
        pair_matches(pool, (pairs - 1) as nat) + matches(
            pool[2 * (pairs - 1)]@.genes,
            pool[2 * (pairs - 1) + 1]@.genes,
        )
    }
}

/// Whether a pool is crowded: the matches per pair, averaged over all pairs,
/// exceed four fifths of the length of its first genotype. Nothing is
/// rounded: with `m` matches in `p` pairs of length `l` the test is
/// `m / p > 4 l / 5`, that is `5 m > 4 l p`.
pub open spec fn crowded(pool: Seq<Genotype>) -> bool {
    5 * pair_matches(pool, pool.len() / 2) > 4 * pool[0]@.genes.len() * (pool.len() / 2)
}

/// Two products are compared by the quotients and the rests of their
/// factors: with `sum = whole * pairs + rest` and
/// `4 * length = 5 * fifths + over`, `5 * sum` exceeds `4 * length * pairs`
/// just when `whole` exceeds `fifths`, or equals it while `5 * rest` exceeds
/// `over * pairs`.
proof fn lemma_exceeds(
    sum: int,
    pairs: int,
    length: int,
    whole: int,
    rest: int,
    fifths: int,
    over: int,
)
    requires
        pairs > 0,
        sum == whole * pairs + rest,
        0 <= rest < pairs,
        4 * length == 5 * fifths + over,
        0 <= over < 5,
    ensures
        (5 * sum > 4 * length * pairs) == (whole > fifths || (whole == fifths && 5 * rest > over * pairs)),
{
    assert(4 * length * pairs == 5 * fifths * pairs + over * pairs) by (nonlinear_arith)
        requires
            4 * length == 5 * fifths + over,
    ;
    assert(5 * sum == 5 * whole * pairs + 5 * rest) by (nonlinear_arith)
        requires
            sum == whole * pairs + rest,
    ;
    assert(0 <= over * pairs < 5 * pairs) by (nonlinear_arith)
        requires
            0 <= over < 5,
            pairs > 0,
    ;
    if whole > fifths {
        assert(5 * whole * pairs >= 5 * fifths * pairs + 5 * pairs) by (nonlinear_arith)
            requires
                whole >= fifths + 1,
                pairs > 0,
        ;
    } else if whole < fifths {
        assert(5 * whole * pairs + 5 * pairs <= 5 * fifths * pairs) by (nonlinear_arith)
            requires
                whole + 1 <= fifths,
                pairs > 0,
        ;
    } else {
        assert(5 * whole * pairs == 5 * fifths * pairs);
    }
}

/// Counts the positions at which two genotypes hold the same gene.
pub fn count_matches(first: &Vec<u8>, second: &Vec<u8>) -> (count: usize)
    ensures
        count == matches(first@, second@),
        count <= first@.len(),
        count <= second@.len(),
{
    let reach: usize = if first.len() <= second.len() {
        first.len()
    } else {
        second.len()
    };
    let mut count: usize = 0;
    let mut position: usize = 0;
    while position < reach
        invariant
            reach <= first@.len(),
            reach <= second@.len(),
            position <= reach,
            count <= position,
            count == matches_upto(first@, second@, position as nat),
        decreases reach - position,
    {
        if first[position] == second[position] {
            count = count + 1;
        }
        position = position + 1;
    }
    count
}

/// Tells whether a pool of at least two genotypes is crowded.
pub fn detected_crowding(pool: &Vec<Genotype>) -> (found: bool)
    requires
        pool@.len() >= 2,
    ensures
        found == crowded(pool@),
{
    let pairs: usize = pool.len() / 2;
    let mut sum: u128 = 0;
    let mut pair: usize = 0;
    while pair < pairs
        invariant
            pairs == pool@.len() / 2,
            2 * pairs <= pool@.len() <= usize::MAX,
            pair <= pairs,
            sum == pair_matches(pool@, pair as nat),
            sum <= pair * u64::MAX,
        decreases pairs - pair,
    {
        let same = count_matches(&pool[2 * pair].genotype, &pool[2 * pair + 1].genotype);
        proof {
            assert((pair + 1) * u64::MAX == pair * u64::MAX + u64::MAX) by (nonlinear_arith);
            assert(pair * u64::MAX + u64::MAX <= u64::MAX * u64::MAX + u64::MAX) by (nonlinear_arith)
                requires
                    pair <= u64::MAX,
            ;
        }
        sum = sum + same as u128;
        pair = pair + 1;
    }
    let count = pairs as u128;
    let fourfold: u128 = 4 * pool[0].genotype.len() as u128;
    let whole = sum / count;
    let rest = sum % count;
    let fifths = fourfold / 5;
    let over = fourfold % 5;
    proof {
        assert(sum == whole * count + rest) by (nonlinear_arith)
            requires
                count > 0,
                whole == sum / count,
                rest == sum % count,
        ;
        assert(over * count <= 4 * count && 5 * rest <= 5 * count) by (nonlinear_arith)
            requires
                0 <= over < 5,
                0 <= rest < count,
        ;
        lemma_exceeds(
            sum as int,
            count as int,
            pool@[0]@.genes.len() as int,
            whole as int,
            rest as int,
            fifths as int,
            over as int,
        );
    }
    whole > fifths || (whole == fifths && 5 * rest > over * count)
}

} // verus!
