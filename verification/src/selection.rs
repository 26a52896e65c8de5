//! Selection: building the mating pool from a population.

use crate::fitness::Fitness;
use crate::genotype::individuals;
use crate::genotype::Genotype;
use crate::genotype::Individual;
use crate::methods::SelectionMethod;
use crate::random::below;
use crate::random::spin;
use crate::random::total;
use crate::random::weights_of;
use crate::random::wheel;
use crate::ranking::best_first;
use crate::ranking::sort_by_fitness;
use rand::rngs::StdRng;
use vstd::prelude::*;
use vstd::seq_lib::to_multiset_contains;

verus! {

/// The least weight a genotype has on the roulette wheel: a hundredth of a
/// unit of fitness. It keeps the wheel usable when no genotype scores.
pub const WEIGHT_FLOOR: u64 = 10_000;

/// The weight a fitness has on the roulette wheel: its score, or the floor if
/// the score is lower or the fitness invalid.
pub open spec fn weight_of(fitness: Fitness) -> u64 {
    match fitness {
        Fitness::Valid(score) => if score > WEIGHT_FLOOR {
            score
        } else {
            WEIGHT_FLOOR
        },
        Fitness::Invalid => WEIGHT_FLOOR,
    }
}

/// The roulette-wheel weights of a population, in order.
pub open spec fn wheel_weights(population: Seq<Genotype>) -> Seq<u64> {
    Seq::new(population.len(), |i: int| weight_of(population[i].fitness))
}

/// The sum of the valid scores of a population.
pub open spec fn score_total(population: Seq<Genotype>) -> nat
    decreases population.len(),
{
    if population.len() == 0 {
        0
    } else {
        score_total(population.drop_last()) + population.last().fitness.weight()
    }
}

/// How many copies remainder stochastic sampling owes a genotype outright:
/// the whole part of its score over the population's average score, that is
/// of `score * count / sum_of_scores`. Nothing is owed when nobody scores.
pub open spec fn whole_share(score: nat, count: nat, sum: nat) -> nat {
    if sum == 0 {
        0
    } else {
        (score * count) / sum
    }
}

/// The chances, out of `sum`, that remainder stochastic sampling grants a
/// genotype one copy more: what is left of `score * count` after the whole
/// shares.
pub open spec fn part_share(score: nat, count: nat, sum: nat) -> nat {
    if sum == 0 {
        0
    } else {
        (score * count) % sum
    }
}

/// Whether `genotype` is a copy of a member of the population.
pub open spec fn copy_of(genotype: Genotype, population: Seq<Genotype>) -> bool {
    exists|i: int| 0 <= i < population.len() && genotype@ == (#[trigger] population[i])@
}

/// Whether every member of the pool is a copy of a member of the population.
pub open spec fn drawn_from(pool: Seq<Genotype>, population: Seq<Genotype>) -> bool {
    forall|k: int| 0 <= k < pool.len() ==> copy_of(#[trigger] pool[k], population)
}

proof fn lemma_total_step(weights: Seq<u64>, upto: int)
    requires
        0 <= upto < weights.len(),
    ensures
        total(weights.subrange(0, upto + 1)) == total(weights.subrange(0, upto)) + weights[upto],
{
    assert(weights.subrange(0, upto + 1).drop_last() =~= weights.subrange(0, upto));
}

proof fn lemma_score_total_step(population: Seq<Genotype>, upto: int)
    requires
        0 <= upto < population.len(),
    ensures
        score_total(population.subrange(0, upto + 1)) == score_total(population.subrange(0, upto))
            + population[upto].fitness.weight(),
{
    assert(population.subrange(0, upto + 1).drop_last() =~= population.subrange(0, upto));
}

/// The weight a fitness has on the roulette wheel.
pub fn weigh(fitness: &Fitness) -> (weight: u64)
    ensures
        weight == weight_of(*fitness),
        weight >= WEIGHT_FLOOR,
{
    match fitness {
        Fitness::Valid(score) => if *score > WEIGHT_FLOOR {
            *score
        } else {
            WEIGHT_FLOOR
        },
        Fitness::Invalid => WEIGHT_FLOOR,
    }
}

/// Whether the roulette-wheel weights of a population add up to a number the
/// wheel can hold.
pub fn weights_fit(population: &Vec<Genotype>) -> (fit: bool)
    ensures
        fit == (total(wheel_weights(population@)) <= u64::MAX),
{
    let ghost weights = wheel_weights(population@);
    let mut sum: u128 = 0;
    let mut position: usize = 0;
    while position < population.len()
        invariant
            weights == wheel_weights(population@),
            position <= population@.len(),
            sum == total(weights.subrange(0, position as int)),
            sum <= position * u64::MAX,
        decreases population@.len() - position,
    {
        let weight = weigh(&population[position].fitness);
        proof {
            lemma_total_step(weights, position as int);
            assert((position + 1) * u64::MAX == position * u64::MAX + u64::MAX) by (nonlinear_arith);
            assert(position * u64::MAX + u64::MAX <= usize::MAX * u64::MAX + u64::MAX) by (nonlinear_arith)
                requires
                    position <= usize::MAX,
            ;
        }
        sum = sum + weight as u128;
        position = position + 1;
    }
    proof {
        assert(weights.subrange(0, position as int) =~= weights);
    }
    sum <= u64::MAX as u128
}

/// The roulette-wheel weights of a population, in order.
pub fn weights_for(population: &Vec<Genotype>) -> (weights: Vec<u64>)
    ensures
        weights@ == wheel_weights(population@),
{
    let mut weights: Vec<u64> = Vec::new();
    let mut position: usize = 0;
    while position < population.len()
        invariant
            position <= population@.len(),
            weights@.len() == position,
            forall|i: int| 0 <= i < position ==> weights@[i] == weight_of(population@[i].fitness),
        decreases population@.len() - position,
    {
        weights.push(weigh(&population[position].fitness));
        position = position + 1;
    }
    proof {
        assert(weights@ =~= wheel_weights(population@));
    }
    weights
}

/// The sum of the valid scores of a population.
pub fn total_score(population: &Vec<Genotype>) -> (sum: u128)
    ensures
        sum == score_total(population@),
{
    let mut sum: u128 = 0;
    let mut position: usize = 0;
    while position < population.len()
        invariant
            position <= population@.len(),
            sum == score_total(population@.subrange(0, position as int)),
            sum <= position * u64::MAX,
        decreases population@.len() - position,
    {
        let score = population[position].fitness.score_or_zero();
        proof {
            lemma_score_total_step(population@, position as int);
            assert((position + 1) * u64::MAX == position * u64::MAX + u64::MAX) by (nonlinear_arith);
            assert(position * u64::MAX + u64::MAX <= usize::MAX * u64::MAX + u64::MAX) by (nonlinear_arith)
                requires
                    position <= usize::MAX,
            ;
        }
        sum = sum + score as u128;
        position = position + 1;
    }
    proof {
        assert(population@.subrange(0, position as int) =~= population@);
    }
    sum
}

/// What remainder stochastic sampling grants a score among `count`
/// genotypes whose scores add up to `sum`: the copies owed outright, and the
/// chances out of `sum` of one copy more.
pub fn shares(score: u64, count: usize, sum: u128) -> (granted: (u128, u128))
    ensures
        granted.0 == whole_share(score as nat, count as nat, sum as nat),
        granted.1 == part_share(score as nat, count as nat, sum as nat),
        granted.1 < sum || sum == 0,
{
    if sum == 0 {
        return (0, 0);
    }
    proof {
        assert(score * count <= u64::MAX * usize::MAX) by (nonlinear_arith)
            requires
                score <= u64::MAX,
                count <= usize::MAX,
        ;
    }
    let product: u128 = score as u128 * count as u128;
    (product / sum, product % sum)
}

/// Equal selection: `pool_size` draws from the population, each genotype as
/// likely as any other.
pub fn select_equal(population: &Vec<Genotype>, pool_size: usize, rng: &mut StdRng) -> (pool: Vec<Genotype>)
    requires
        population@.len() > 0,
    ensures
        pool@.len() == pool_size,
        drawn_from(pool@, population@),
{
    let mut pool: Vec<Genotype> = Vec::new();
    while pool.len() < pool_size
        invariant
            population@.len() > 0,
            pool@.len() <= pool_size,
            drawn_from(pool@, population@),
        decreases pool_size - pool@.len(),
    {
        let drawn: u128 = below(rng, population.len() as u128);
        let copy = population[drawn as usize].clone();
        proof {
            assert(copy@ == population@[drawn as int]@);
        }
        pool.push(copy);
    }
    pool
}

/// Fitness-proportionate selection with replacement: `pool_size` spins of a
/// roulette wheel on which every genotype has its weight.
pub fn select_replacement(population: &Vec<Genotype>, pool_size: usize, rng: &mut StdRng) -> (pool: Vec<
    Genotype,
>)
    requires
        population@.len() > 0,
        total(wheel_weights(population@)) <= u64::MAX,
    ensures
        pool@.len() == pool_size,
        drawn_from(pool@, population@),
{
    let weights = weights_for(population);
    proof {
        lemma_total_bounds(weights@);
    }
    let mut pool: Vec<Genotype> = Vec::new();
    match wheel(&weights) {
        Ok(roulette) => {
            while pool.len() < pool_size
                invariant
                    weights_of(roulette).len() == population@.len(),
                    pool@.len() <= pool_size,
                    drawn_from(pool@, population@),
                decreases pool_size - pool@.len(),
            {
                let chosen = spin(&roulette, rng);
                let copy = population[chosen].clone();
                proof {
                    assert(copy@ == population@[chosen as int]@);
                }
                pool.push(copy);
            }
        },
        Err(_) => {},
    }
    pool
}

/// A sum of weights is at least each weight.
proof fn lemma_total_bounds(weights: Seq<u64>)
    ensures
        forall|i: int| 0 <= i < weights.len() ==> total(weights) >= #[trigger] weights[i],
    decreases weights.len(),
{
    if weights.len() > 0 {
        lemma_total_bounds(weights.drop_last());
        assert forall|i: int| 0 <= i < weights.len() implies total(weights) >= #[trigger] weights[i] by {
            if i < weights.len() - 1 {
                assert(weights.drop_last()[i] == weights[i]);
            }
        }
    }
}

/// So many copies of one individual.
pub open spec fn copies(individual: Individual, count: nat) -> Seq<Individual> {
    Seq::new(count, |k: int| individual)
}

/// What a pool holds once the genotypes of a population have each been
/// dealt as many copies as `grants` says, in the order of the population.
pub open spec fn dealt(population: Seq<Genotype>, grants: Seq<nat>) -> Seq<Individual>
    decreases grants.len(),
{
    if grants.len() == 0 {
        Seq::empty()
    } else {
        dealt(population, grants.drop_last()) + copies(population[grants.len() - 1]@, grants.last())
    }
}

/// A pool cut off at its size.
pub open spec fn filled(pool: Seq<Individual>, size: nat) -> Seq<Individual> {
    if pool.len() <= size {
        pool
    } else {
        pool.subrange(0, size as int)
    }
}

/// Whether a grant is what remainder stochastic sampling owes a fitness: its
/// whole share, and at most one copy more where there is a part share.
pub open spec fn fair_grant(fitness: Fitness, count: nat, sum: nat, grant: nat) -> bool {
    let whole = whole_share(fitness.weight(), count, sum);
    let part = part_share(fitness.weight(), count, sum);
    whole <= grant <= whole + if part > 0 {
        1nat
    } else {
        0nat
    }
}

/// Whether every genotype of a population is granted what it is owed.
pub open spec fn fair(population: Seq<Genotype>, sum: nat, grants: Seq<nat>) -> bool {
    &&& grants.len() == population.len()
    &&& forall|i: int|
        0 <= i < population.len() ==> fair_grant(
            population[i].fitness,
            population.len(),
            sum,
            #[trigger] grants[i],
        )
}

/// Whether `after` is what a pass of remainder stochastic sampling over the
/// population can make of the pool `before`: every genotype is dealt a fair
/// grant in turn, until the pool is full.
pub open spec fn passed(
    population: Seq<Genotype>,
    sum: nat,
    before: Seq<Individual>,
    after: Seq<Individual>,
    pool_size: nat,
) -> bool {
    exists|grants: Seq<nat>| #[trigger]
        fair(population, sum, grants) && after == filled(before + dealt(population, grants), pool_size)
}

/// Adds copies of a genotype to a pool: as many as asked for, or as many as
/// the pool has room for. Returns how many were added.
pub fn give(genotype: &Genotype, count: u128, pool: &mut Vec<Genotype>, pool_size: usize) -> (given: usize)
    requires
        old(pool)@.len() <= pool_size,
    ensures
        final(pool)@.len() == old(pool)@.len() + given,
        final(pool)@.len() <= pool_size,
        given == if count <= pool_size - old(pool)@.len() {
            count as int
        } else {
            pool_size - old(pool)@.len()
        },
        final(pool)@.subrange(0, old(pool)@.len() as int) == old(pool)@,
        forall|k: int| old(pool)@.len() <= k < final(pool)@.len() ==> (#[trigger] final(pool)@[k])@ == genotype@,
        individuals(final(pool)@) == filled(
            individuals(old(pool)@) + copies(genotype@, count as nat),
            pool_size as nat,
        ),
{
    let mut given: usize = 0;
    while (given as u128) < count && pool.len() < pool_size
        invariant
            old(pool)@.len() <= pool_size,
            pool@.len() == old(pool)@.len() + given,
            pool@.len() <= pool_size,
            given <= count,
            pool@.subrange(0, old(pool)@.len() as int) == old(pool)@,
            forall|k: int| old(pool)@.len() <= k < pool@.len() ==> (#[trigger] pool@[k])@ == genotype@,
        decreases pool_size - pool@.len(),
    {
        let copy = genotype.clone();
        proof {
            assert(pool@.push(copy).subrange(0, old(pool)@.len() as int) =~= pool@.subrange(
                0,
                old(pool)@.len() as int,
            ));
        }
        pool.push(copy);
        given = given + 1;
    }
    proof {
        let before = old(pool)@;
        assert forall|k: int| 0 <= k < before.len() implies individuals(pool@)[k] == individuals(before)[k] by {
            assert(pool@.subrange(0, before.len() as int)[k] == pool@[k]);
        }
        assert(individuals(pool@) =~= filled(
            individuals(before) + copies(genotype@, count as nat),
            pool_size as nat,
        ));
    }
    given
}

/// Dealing one more grant deals the copies of one more genotype.
proof fn lemma_deal_next(population: Seq<Genotype>, grants: Seq<nat>, grant: nat)
    requires
        grants.len() < population.len(),
    ensures
        dealt(population, grants.push(grant)) == dealt(population, grants) + copies(
            population[grants.len() as int]@,
            grant,
        ),
{
    assert(grants.push(grant).drop_last() =~= grants);
}

/// Cutting a pool off twice at the same size is cutting it off once.
proof fn lemma_fill_again(pool: Seq<Individual>, more: Seq<Individual>, size: nat)
    ensures
        filled(filled(pool, size) + more, size) == filled(pool + more, size),
{
    assert(filled(filled(pool, size) + more, size) =~= filled(pool + more, size));
}

/// One pass of remainder stochastic sampling over the population, whose
/// valid scores add up to `sum`. Each genotype in turn gets the copies it is
/// owed outright and, with the probability of its part share, one more, as
/// far as the pool has room. Returns how many copies were added.
pub fn remainder_pass(
    population: &Vec<Genotype>,
    sum: u128,
    pool: &mut Vec<Genotype>,
    pool_size: usize,
    rng: &mut StdRng,
) -> (pushed: usize)
    requires
        old(pool)@.len() <= pool_size,
        drawn_from(old(pool)@, population@),
    ensures
        final(pool)@.len() == old(pool)@.len() + pushed,
        final(pool)@.len() <= pool_size,
        final(pool)@.subrange(0, old(pool)@.len() as int) == old(pool)@,
        drawn_from(final(pool)@, population@),
        passed(
            population@,
            sum as nat,
            individuals(old(pool)@),
            individuals(final(pool)@),
            pool_size as nat,
        ),
{
    let ghost start = pool@;
    let ghost mut grants: Seq<nat> = Seq::empty();
    let count = population.len();
    let mut pushed: usize = 0;
    let mut position: usize = 0;
    proof {
        assert(individuals(start) + dealt(population@, grants) =~= individuals(start));
    }
    while position < count
        invariant
            count == population@.len(),
            position <= count,
            start.len() <= pool_size,
            pool@.len() == start.len() + pushed,
            pool@.len() <= pool_size,
            pool@.subrange(0, start.len() as int) == start,
            drawn_from(pool@, population@),
            grants.len() == position,
            forall|i: int|
                0 <= i < position ==> fair_grant(
                    population@[i].fitness,
                    count as nat,
                    sum as nat,
                    #[trigger] grants[i],
                ),
            individuals(pool@) == filled(individuals(start) + dealt(population@, grants), pool_size as nat),
        decreases count - position,
    {
        let ghost before = pool@;
        let ghost so_far = individuals(start) + dealt(population@, grants);
        let genotype = &population[position];
        let score = genotype.fitness.score_or_zero();
        let (whole, part) = shares(score, count, sum);
        let given = give(genotype, whole, pool, pool_size);
        let ghost middle = pool@;
        let mut extra = false;
        if part > 0 && pool.len() < pool_size {
            let drawn = below(rng, sum);
            extra = drawn < part;
        }
        let mut more: usize = 0;
        if extra {
            more = give(genotype, 1, pool, pool_size);
        }
        proof {
            let grant: nat = if extra {
                (whole + 1) as nat
            } else {
                whole as nat
            };
            let one = genotype@;
            lemma_deal_next(population@, grants, grant);
            lemma_fill_again(so_far, copies(one, whole as nat), pool_size as nat);
            if extra {
                lemma_fill_again(so_far + copies(one, whole as nat), copies(one, 1), pool_size as nat);
                assert(so_far + copies(one, whole as nat) + copies(one, 1) =~= so_far + copies(one, grant));
            }
            assert(individuals(pool@) == filled(so_far + copies(one, grant), pool_size as nat));
            assert(so_far + copies(one, grant) =~= individuals(start) + dealt(
                population@,
                grants.push(grant),
            ));
            assert(pool@.subrange(0, start.len() as int) =~= start) by {
                assert forall|k: int| 0 <= k < start.len() implies pool@[k] == start[k] by {
                    assert(before.subrange(0, start.len() as int)[k] == before[k]);
                    assert(middle.subrange(0, before.len() as int)[k] == middle[k]);
                    if extra {
                        assert(pool@.subrange(0, middle.len() as int)[k] == pool@[k]);
                    }
                }
            }
            assert forall|k: int| 0 <= k < pool@.len() implies copy_of(#[trigger] pool@[k], population@) by {
                if k < before.len() {
                    assert(before.subrange(0, start.len() as int).len() == start.len());
                    assert(middle.subrange(0, before.len() as int)[k] == middle[k]);
                    if extra {
                        assert(pool@.subrange(0, middle.len() as int)[k] == pool@[k]);
                    }
                    assert(copy_of(before[k], population@));
                } else {
                    if extra && k < middle.len() {
                        assert(pool@.subrange(0, middle.len() as int)[k] == pool@[k]);
                    }
                    assert(pool@[k]@ == population@[position as int]@);
                }
            }
            grants = grants.push(grant);
        }
        pushed = pushed + given + more;
        position = position + 1;
    }
    proof {
        assert(fair(population@, sum as nat, grants));
    }
    pushed
}

/// Whether `after` is the pool `mid` with a copy of some genotype of the
/// population added.
pub open spec fn helped(population: Seq<Genotype>, mid: Seq<Individual>, after: Seq<Individual>) -> bool {
    exists|i: int| 0 <= i < population.len() && after == mid.push((#[trigger] population[i])@)
}

/// Whether a pass that leaves the pool `before` as `mid` is followed by
/// `after`: a pass that added something stands as it is, one that added
/// nothing is helped along by one genotype.
pub open spec fn settled(
    population: Seq<Genotype>,
    before: Seq<Individual>,
    mid: Seq<Individual>,
    after: Seq<Individual>,
) -> bool {
    if mid.len() > before.len() {
        after == mid
    } else {
        helped(population, mid, after)
    }
}

/// Whether `after` is what one round of remainder stochastic sampling can
/// make of the pool `before`: a pass, and help where the pass added nothing.
pub open spec fn round(
    population: Seq<Genotype>,
    sum: nat,
    before: Seq<Individual>,
    after: Seq<Individual>,
    pool_size: nat,
) -> bool {
    exists|mid: Seq<Individual>| #[trigger]
        passed(population, sum, before, mid, pool_size) && settled(population, before, mid, after)
}

/// Whether `stages` are the pools that remainder stochastic sampling goes
/// through: it starts empty, every stage follows from the one before by one
/// round, and the first stage that is full is the last.
pub open spec fn sampled(
    population: Seq<Genotype>,
    sum: nat,
    stages: Seq<Seq<Individual>>,
    pool_size: nat,
) -> bool {
    &&& stages.len() > 0
    &&& stages[0].len() == 0
    &&& stages.last().len() == pool_size
    &&& forall|t: int| 0 <= t < stages.len() - 1 ==> (#[trigger] stages[t]).len() < pool_size
    &&& forall|t: int|
        0 <= t < stages.len() - 1 ==> round(population, sum, #[trigger] stages[t], stages[t + 1], pool_size)
}

/// Whether `pool` is a pool that remainder stochastic sampling can end with.
pub open spec fn remainder_sampled(population: Seq<Genotype>, pool: Seq<Individual>, pool_size: nat) -> bool {
    exists|stages: Seq<Seq<Individual>>| #[trigger]
        sampled(population, score_total(population), stages, pool_size) && stages.last() == pool
}

/// Remainder stochastic sampling: rounds over the population until the pool
/// holds `pool_size` genotypes. A round is a pass; a pass that adds nothing
/// is followed by one genotype drawn at random, so that every round makes
/// progress and no more than `pool_size` rounds are needed.
pub fn select_remainder(population: &Vec<Genotype>, pool_size: usize, rng: &mut StdRng) -> (pool: Vec<
    Genotype,
>)
    requires
        population@.len() > 0,
    ensures
        pool@.len() == pool_size,
        drawn_from(pool@, population@),
        remainder_sampled(population@, individuals(pool@), pool_size as nat),
{
    let sum = total_score(population);
    let mut pool: Vec<Genotype> = Vec::new();
    let ghost mut stages: Seq<Seq<Individual>> = seq![individuals(pool@)];
    while pool.len() < pool_size
        invariant
            population@.len() > 0,
            sum == score_total(population@),
            pool@.len() <= pool_size,
            drawn_from(pool@, population@),
            stages.len() > 0,
            stages[0].len() == 0,
            stages.last() == individuals(pool@),
            forall|t: int| 0 <= t < stages.len() - 1 ==> (#[trigger] stages[t]).len() < pool_size,
            forall|t: int|
                0 <= t < stages.len() - 1 ==> round(
                    population@,
                    sum as nat,
                    #[trigger] stages[t],
                    stages[t + 1],
                    pool_size as nat,
                ),
        decreases pool_size - pool@.len(),
    {
        let ghost before = individuals(pool@);
        let pushed = remainder_pass(population, sum, &mut pool, pool_size, rng);
        let ghost mid = individuals(pool@);
        if pushed == 0 {
            let drawn: u128 = below(rng, population.len() as u128);
            let copy = population[drawn as usize].clone();
            proof {
                assert(copy@ == population@[drawn as int]@);
                assert(individuals(pool@.push(copy)) =~= mid.push(population@[drawn as int]@));
            }
            pool.push(copy);
        }
        proof {
            let after = individuals(pool@);
            assert(settled(population@, before, mid, after));
            assert(round(population@, sum as nat, before, after, pool_size as nat));
            let grown = stages.push(after);
            assert forall|t: int| 0 <= t < grown.len() - 1 implies round(
                population@,
                sum as nat,
                #[trigger] grown[t],
                grown[t + 1],
                pool_size as nat,
            ) by {
                if t < stages.len() - 1 {
                    assert(grown[t] == stages[t]);
                    assert(grown[t + 1] == stages[t + 1]);
                }
            }
            stages = grown;
        }
    }
    proof {
        assert(sampled(population@, score_total(population@), stages, pool_size as nat));
    }
    pool
}

/// Whether `pool` is, put in some other order, a pool that remainder
/// stochastic sampling can end with.
pub open spec fn remainder_selected(population: Seq<Genotype>, pool: Seq<Genotype>, pool_size: nat) -> bool {
    exists|unsorted: Seq<Genotype>| #[trigger]
        remainder_sampled(population, individuals(unsorted), pool_size) && unsorted.to_multiset()
            == pool.to_multiset()
}

/// Builds a mating pool of exactly `pool_size` genotypes from a population
/// that is not empty. Every member of the pool is a copy of a member of the
/// population, and the pool stands best first.
pub fn select_genitors(
    population: &Vec<Genotype>,
    pool_size: usize,
    selection_method: SelectionMethod,
    rng: &mut StdRng,
) -> (pool: Vec<Genotype>)
    requires
        population@.len() > 0,
        selection_method == SelectionMethod::Replacement ==> total(wheel_weights(population@))
            <= u64::MAX,
    ensures
        pool@.len() == pool_size,
        drawn_from(pool@, population@),
        best_first(pool@),
        selection_method == SelectionMethod::Remainder ==> remainder_selected(
            population@,
            pool@,
            pool_size as nat,
        ),
{
    let mut pool = match selection_method {
        SelectionMethod::Equal => select_equal(population, pool_size, rng),
        SelectionMethod::Remainder => select_remainder(population, pool_size, rng),
        SelectionMethod::Replacement => select_replacement(population, pool_size, rng),
    };
    let ghost unsorted = pool@;
    sort_by_fitness(&mut pool);
    proof {
        assert forall|k: int| 0 <= k < pool@.len() implies copy_of(#[trigger] pool@[k], population@) by {
            to_multiset_contains(pool@, pool@[k]);
            to_multiset_contains(unsorted, pool@[k]);
            assert(pool@.contains(pool@[k]));
            let m = choose|m: int| 0 <= m < unsorted.len() && unsorted[m] == pool@[k];
            assert(copy_of(unsorted[m], population@));
        }
        if selection_method == SelectionMethod::Remainder {
            assert(remainder_sampled(population@, individuals(unsorted), pool_size as nat));
        }
    }
    pool
}

} // verus!
