//! The generation driver: one population and the settings it evolves under.

use crate::crowding::crowded;
use crate::crowding::detected_crowding;
use crate::genotype::Genotype;
use crate::methods::ProblemType;
use crate::methods::SelectionMethod;
use crate::methods::SexMethod;
use crate::problem::admits;
use crate::problem::Problem;
use crate::random::below;
use crate::random::total;
use crate::ranking::best_first;
use crate::ranking::best_of;
use crate::ranking::is_best;
use crate::ranking::sort_by_fitness;
use crate::rate::Rate;
use crate::reproduction::bred;
use crate::reproduction::long_enough;
use crate::selection::copy_of;
use crate::selection::drawn_from;
use crate::selection::remainder_selected;
use crate::selection::select_genitors;
use crate::selection::wheel_weights;
use rand::rngs::StdRng;
use vstd::prelude::*;
use vstd::seq_lib::to_multiset_contains;

verus! {

/// The settings of a run, as its caller gives them.
#[derive(Debug)]
pub struct Args {
    /// How many of the best genotypes of all generations to report.
    pub best: usize,
    /// Create genitors until they are valid.
    pub force_create: bool,
    /// Watch for crowding and raise the mutation rate when it is found;
    /// zero switches the watch off.
    pub detect_crowding: Rate,
    /// Only evaluate the given genitors; do not top the population up.
    pub evaluate: bool,
    /// A mutated gene must differ from the gene it replaces.
    pub force_mutation: bool,
    /// The files the problem is read from.
    pub file: Vec<String>,
    /// The genitors the first population starts with.
    pub genitors: Vec<Vec<u8>>,
    /// The size of the mating pool; zero leaves it at twice the population.
    pub intermediate_population: usize,
    /// The probability that two mates are carried over unchanged.
    pub skip: Rate,
    /// The probability that a gene mutates.
    pub mutation_rate: Rate,
    /// The number of generations to run.
    pub max_generations: usize,
    /// Show a progress bar.
    pub progress: bool,
    /// The size of the population.
    pub population: usize,
    /// The problem to solve.
    pub problem: ProblemType,
    /// How the mating pool is selected.
    pub selection_method: SelectionMethod,
    /// How mates are recombined.
    pub sex_method: SexMethod,
}

/// One generation of a run: the population, the mating pool it was bred
/// from, and the settings.
pub struct Generation<P: Problem> {
    /// Create genitors until they are valid.
    pub force_create: bool,
    /// Watch for crowding; zero switches the watch off.
    pub detect_crowding: Rate,
    /// The number of generations to run.
    pub max_generations: usize,
    /// A mutated gene must differ from the gene it replaces.
    pub force_mutation: bool,
    /// The current population, best first.
    pub population: Vec<Genotype>,
    /// The mating pool the current population was bred from.
    pub intermediate: Vec<Genotype>,
    /// The probability that two mates are carried over unchanged.
    pub skip: Rate,
    /// The probability that a gene mutates.
    pub mutation_rate: Rate,
    /// The problem being solved.
    pub problem: P,
    /// How the mating pool is selected.
    pub selection_method: SelectionMethod,
    /// How mates are recombined.
    pub sex_method: SexMethod,
    /// The size every bred population has.
    pub capacity: usize,
    /// The size every mating pool has.
    pub pool_capacity: usize,
}

/// Whether one of the genotypes has exactly the given genes.
pub open spec fn holds_genes(genotypes: Seq<Genotype>, genes: Seq<u8>) -> bool {
    exists|k: int| 0 <= k < genotypes.len() && (#[trigger] genotypes[k])@.genes == genes
}

/// Whether every gene is a symbol of the alphabet.
pub open spec fn spelled_over(genes: Seq<u8>, alphabet: Seq<u8>) -> bool {
    forall|j: int| 0 <= j < genes.len() ==> alphabet.contains(#[trigger] genes[j])
}

/// Whether the genes are among the genitors given.
pub open spec fn given_genes(genes: Seq<u8>, genitors: Seq<Vec<u8>>) -> bool {
    exists|i: int| 0 <= i < genitors.len() && (#[trigger] genitors[i])@ == genes
}

/// Whether every genotype of a list belongs to the problem.
pub open spec fn all_admitted<P: Problem>(problem: P, genotypes: Seq<Genotype>) -> bool {
    forall|i: int| 0 <= i < genotypes.len() ==> admits(&problem, #[trigger] genotypes[i])
}

impl<P: Problem> Generation<P> {
    /// Whether two generations run under the same settings.
    pub open spec fn same_settings(self, other: Generation<P>) -> bool {
        &&& self.force_create == other.force_create
        &&& self.detect_crowding == other.detect_crowding
        &&& self.max_generations == other.max_generations
        &&& self.force_mutation == other.force_mutation
        &&& self.skip == other.skip
        &&& self.mutation_rate == other.mutation_rate
        &&& self.problem == other.problem
        &&& self.selection_method == other.selection_method
        &&& self.sex_method == other.sex_method
        &&& self.capacity == other.capacity
        &&& self.pool_capacity == other.pool_capacity
    }

    /// Whether the generation is in order: its problem is valid and every
    /// genotype of the population belongs to it.
    pub open spec fn well_formed(self) -> bool {
        &&& self.problem.valid()
        &&& all_admitted(self.problem, self.population@)
    }

    /// Whether the generation can take a step: it is in order, has a
    /// population to select from, a pool to breed from, genotypes long enough
    /// for its crossover, and weights the roulette wheel can hold.
    pub open spec fn ready(self) -> bool {
        &&& self.well_formed()
        &&& self.population@.len() > 0
        &&& self.capacity > 0 ==> self.pool_capacity > 0
        &&& !self.detect_crowding.is_never() ==> self.pool_capacity >= 2
        &&& !self.skip.is_always() ==> long_enough(self.sex_method, self.problem.length())
        &&& self.selection_method == SelectionMethod::Replacement ==> total(
            wheel_weights(self.population@),
        ) <= u64::MAX
    }

    /// Sets a generation up from the settings of a run and a problem.
    ///
    /// The given genitors are evaluated and make up the first population;
    /// unless the run only evaluates, random genotypes top it up to the
    /// configured size. The population stands best first.
    pub fn from(args: Args, problem: P, rng: &mut StdRng) -> (generation: Generation<P>)
        requires
            problem.valid(),
            forall|i: int| 0 <= i < args.genitors@.len() ==> (#[trigger] args.genitors@[i])@.len() == problem.length(),
            args.intermediate_population == 0 ==> 2 * args.population <= usize::MAX,
        ensures
            generation.well_formed(),
            best_first(generation.population@),
            generation.population@.len() == if args.evaluate || args.genitors@.len() >= args.population {
                args.genitors@.len()
            } else {
                args.population as nat
            },
            forall|i: int|
                0 <= i < args.genitors@.len() ==> holds_genes(
                    generation.population@,
                    (#[trigger] args.genitors@[i])@,
                ),
            forall|k: int|
                0 <= k < generation.population@.len() ==> {
                    ||| given_genes((#[trigger] generation.population@[k])@.genes, args.genitors@)
                    ||| spelled_over(generation.population@[k]@.genes, problem.symbols())
                },
            generation.intermediate@.len() == 0,
            generation.problem == problem,
            generation.force_create == args.force_create,
            generation.detect_crowding == args.detect_crowding,
            generation.max_generations == args.max_generations,
            generation.force_mutation == args.force_mutation,
            generation.skip == args.skip,
            generation.mutation_rate == args.mutation_rate,
            generation.selection_method == args.selection_method,
            generation.sex_method == args.sex_method,
            generation.capacity == args.population,
            generation.pool_capacity == if args.intermediate_population == 0 {
                2 * args.population
            } else {
                args.intermediate_population as int
            },
    {
        let pool_capacity: usize = if args.intermediate_population == 0 {
            2 * args.population
        } else {
            args.intermediate_population
        };
        let mut generation = Generation {
            force_create: args.force_create,
            detect_crowding: args.detect_crowding,
            max_generations: args.max_generations,
            force_mutation: args.force_mutation,
            population: Vec::new(),
            intermediate: Vec::new(),
            skip: args.skip,
            mutation_rate: args.mutation_rate,
            problem,
            selection_method: args.selection_method,
            sex_method: args.sex_method,
            capacity: args.population,
            pool_capacity,
        };
        let evaluate = args.evaluate;
        let genitors = args.genitors;
        let mut taken: usize = 0;
        while taken < genitors.len()
            invariant
                generation.problem == problem,
                problem.valid(),
                forall|i: int| 0 <= i < genitors@.len() ==> (#[trigger] genitors@[i])@.len() == problem.length(),
                taken <= genitors@.len(),
                generation.population@.len() == taken,
                all_admitted(generation.problem, generation.population@),
                forall|i: int| 0 <= i < taken ==> (#[trigger] generation.population@[i])@.genes == genitors@[i]@,
                generation.intermediate@.len() == 0,
                generation.force_create == args.force_create,
                generation.detect_crowding == args.detect_crowding,
                generation.max_generations == args.max_generations,
                generation.force_mutation == args.force_mutation,
                generation.skip == args.skip,
                generation.mutation_rate == args.mutation_rate,
                generation.selection_method == args.selection_method,
                generation.sex_method == args.sex_method,
                generation.capacity == args.population,
                generation.pool_capacity == pool_capacity,
            decreases genitors@.len() - taken,
        {
            let genes = genitors[taken].clone();
            let fitness = generation.problem.fitness(&genes);
            generation.population.push(Genotype::from(genes, fitness));
            taken = taken + 1;
        }
        let ghost supplied = generation.population@;
        if !evaluate {
            generation.generate_genitors(rng);
        }
        let ghost unsorted = generation.population@;
        proof {
            assert(unsorted.subrange(0, supplied.len() as int) == supplied);
            assert forall|k: int| 0 <= k < unsorted.len() implies given_genes(
                (#[trigger] unsorted[k])@.genes,
                genitors@,
            ) || spelled_over(unsorted[k]@.genes, problem.symbols()) by {
                if k < supplied.len() {
                    assert(unsorted.subrange(0, supplied.len() as int)[k] == unsorted[k]);
                    assert(genitors@[k]@ == unsorted[k]@.genes);
                }
            }
        }
        sort_by_fitness(&mut generation.population);
        proof {
            lemma_reordered_admitted(generation.problem, generation.population@, unsorted);
            assert forall|k: int| 0 <= k < generation.population@.len() implies given_genes(
                (#[trigger] generation.population@[k])@.genes,
                genitors@,
            ) || spelled_over(generation.population@[k]@.genes, problem.symbols()) by {
                let member = generation.population@[k];
                assert(generation.population@.contains(member));
                to_multiset_contains(generation.population@, member);
                to_multiset_contains(unsorted, member);
                let m = choose|m: int| 0 <= m < unsorted.len() && unsorted[m] == member;
                assert(given_genes(unsorted[m]@.genes, genitors@) || spelled_over(
                    unsorted[m]@.genes,
                    problem.symbols(),
                ));
            }
            assert forall|i: int| 0 <= i < genitors@.len() implies holds_genes(
                generation.population@,
                (#[trigger] genitors@[i])@,
            ) by {
                assert(unsorted.subrange(0, supplied.len() as int)[i] == unsorted[i]);
                assert(unsorted[i]@.genes == genitors@[i]@);
                assert(unsorted.contains(unsorted[i]));
                to_multiset_contains(unsorted, unsorted[i]);
                to_multiset_contains(generation.population@, unsorted[i]);
                let k = choose|k: int|
                    0 <= k < generation.population@.len() && generation.population@[k] == unsorted[i];
                assert(generation.population@[k]@.genes == genitors@[i]@);
            }
        }
        generation
    }

    /// The best genotype of the population, or `None` if it is empty.
    pub fn best(&self) -> (winner: Option<&Genotype>)
        ensures
            winner is Some <==> self.population@.len() > 0,
            winner matches Some(g) ==> is_best(self.population@, *g),
    {
        best_of(&self.population)
    }

    /// Rebuilds the mating pool from the population, which must not be
    /// empty. The population is put best first, and so is the pool.
    pub fn select_genitors(&mut self, rng: &mut StdRng)
        requires
            old(self).population@.len() > 0,
            old(self).selection_method == SelectionMethod::Replacement ==> total(
                wheel_weights(old(self).population@),
            ) <= u64::MAX,
        ensures
            final(self).same_settings(*old(self)),
            final(self).population@.to_multiset() == old(self).population@.to_multiset(),
            final(self).population@.len() == old(self).population@.len(),
            best_first(final(self).population@),
            final(self).intermediate@.len() == old(self).pool_capacity,
            drawn_from(final(self).intermediate@, old(self).population@),
            drawn_from(final(self).intermediate@, final(self).population@),
            best_first(final(self).intermediate@),
            old(self).selection_method == SelectionMethod::Remainder ==> remainder_selected(
                old(self).population@,
                final(self).intermediate@,
                old(self).pool_capacity as nat,
            ),
    {
        let ghost before = self.population@;
        let pool = select_genitors(&self.population, self.pool_capacity, self.selection_method, rng);
        sort_by_fitness(&mut self.population);
        self.intermediate = pool;
        proof {
            assert forall|k: int| 0 <= k < pool@.len() implies copy_of(#[trigger] pool@[k], self.population@) by {
                assert(copy_of(pool@[k], before));
                let i = choose|i: int| 0 <= i < before.len() && pool@[k]@ == (#[trigger] before[i])@;
                assert(before.contains(before[i]));
                to_multiset_contains(before, before[i]);
                to_multiset_contains(self.population@, before[i]);
                let m = choose|m: int| 0 <= m < self.population@.len() && self.population@[m] == before[i];
                assert(pool@[k]@ == self.population@[m]@);
            }
        }
    }

    /// Tops the population up to the configured size with fresh genotypes of
    /// the problem.
    pub fn generate_genitors(&mut self, rng: &mut StdRng)
        requires
            old(self).well_formed(),
        ensures
            final(self).same_settings(*old(self)),
            final(self).well_formed(),
            final(self).intermediate == old(self).intermediate,
            final(self).population@.len() == if old(self).population@.len() >= old(self).capacity {
                old(self).population@.len()
            } else {
                old(self).capacity as nat
            },
            final(self).population@.subrange(0, old(self).population@.len() as int) == old(self).population@,
            forall|k: int|
                old(self).population@.len() <= k < final(self).population@.len() ==> spelled_over(
                    (#[trigger] final(self).population@[k])@.genes,
                    old(self).problem.symbols(),
                ),
    {
        let ghost before = self.population@;
        while self.population.len() < self.capacity
            invariant
                self.same_settings(*old(self)),
                self.well_formed(),
                self.intermediate == old(self).intermediate,
                before == old(self).population@,
                before.len() <= self.population@.len(),
                self.population@.len() <= self.capacity || self.population@.len() == before.len(),
                self.population@.subrange(0, before.len() as int) == before,
                forall|k: int|
                    before.len() <= k < self.population@.len() ==> spelled_over(
                        (#[trigger] self.population@[k])@.genes,
                        self.problem.symbols(),
                    ),
            decreases self.capacity - self.population@.len(),
        {
            let created = Genotype::new(self, rng);
            let ghost grown = self.population@;
            self.population.push(created);
            proof {
                assert(self.population@.subrange(0, before.len() as int) =~= grown.subrange(
                    0,
                    before.len() as int,
                ));
            }
        }
        proof {
            assert(self.population@.subrange(0, before.len() as int) == before);
        }
    }

    /// The mutation rate the generation breeds at: the configured one, or the
    /// raised one when the crowding watch is on and the pool is crowded.
    pub open spec fn breeding_rate(self) -> Rate {
        if !self.detect_crowding.is_never() && crowded(self.intermediate@) {
            Rate::raised()
        } else {
            self.mutation_rate
        }
    }

    /// Replaces the population by the next generation.
    ///
    /// The mating pool is rebuilt by selection. If the crowding watch is on
    /// and finds the pool crowded, the mutation rate is raised for this one
    /// step. Pairs of mates are then drawn from the pool, a genotype may be
    /// drawn twice and may meet itself, and their children fill the new
    /// population, which is put best first.
    pub fn generate_generation(&mut self, num_generation: usize, rng: &mut StdRng) -> (report: Statistics)
        requires
            old(self).ready(),
        ensures
            final(self).same_settings(*old(self)),
            final(self).well_formed(),
            final(self).population@.len() == old(self).capacity,
            best_first(final(self).population@),
            final(self).intermediate@.len() == old(self).pool_capacity,
            drawn_from(final(self).intermediate@, old(self).population@),
            best_first(final(self).intermediate@),
            old(self).selection_method == SelectionMethod::Remainder ==> remainder_selected(
                old(self).population@,
                final(self).intermediate@,
                old(self).pool_capacity as nat,
            ),
            forall|k: int|
                0 <= k < final(self).population@.len() ==> descends(
                    #[trigger] final(self).population@[k],
                    final(self).intermediate@,
                    final(self).sex_method,
                    final(self).problem.symbols(),
                    final(self).breeding_rate(),
                    final(self).skip,
                    final(self).force_mutation,
                ),
            report.generation == num_generation,
            report.invalid == invalid_count(final(self).population@),
            report.crowded == (!final(self).detect_crowding.is_never() && crowded(final(self).intermediate@)),
    {
        let ghost before = self.population@;
        self.select_genitors(rng);
        proof {
            lemma_reordered_admitted(self.problem, self.population@, before);
            lemma_drawn_admitted(self.problem, self.intermediate@, self.population@);
        }
        let configured = self.mutation_rate;
        let mut found = false;
        if !self.detect_crowding.is_zero() {
            if self.detected_crowding() {
                self.mutation_rate = Rate::elevated();
                found = true;
            }
        }
        let ghost rate = self.mutation_rate;
        let mut children = breed(self, rng);
        let ghost unsorted = children@;
        sort_by_fitness(&mut children);
        self.population = children;
        self.mutation_rate = configured;
        proof {
            lemma_reordered_admitted(self.problem, self.population@, unsorted);
            assert(rate == self.breeding_rate());
            assert forall|k: int| 0 <= k < self.population@.len() implies descends(
                #[trigger] self.population@[k],
                self.intermediate@,
                self.sex_method,
                self.problem.symbols(),
                self.breeding_rate(),
                self.skip,
                self.force_mutation,
            ) by {
                to_multiset_contains(self.population@, self.population@[k]);
                to_multiset_contains(unsorted, self.population@[k]);
                assert(self.population@.contains(self.population@[k]));
                let m = choose|m: int| 0 <= m < unsorted.len() && unsorted[m] == self.population@[k];
                assert(descends(
                    unsorted[m],
                    self.intermediate@,
                    self.sex_method,
                    self.problem.symbols(),
                    rate,
                    self.skip,
                    self.force_mutation,
                ));
            }
        }
        let invalid = count_invalid(&self.population);
        Statistics { generation: num_generation, invalid, crowded: found }
    }

    /// Tells whether the mating pool, of at least two genotypes, is crowded.
    pub fn detected_crowding(&self) -> (found: bool)
        requires
            self.intermediate@.len() >= 2,
        ensures
            found == crowded(self.intermediate@),
    {
        detected_crowding(&self.intermediate)
    }
}

/// Whether the genes `child` and `sibling` are the two children that the
/// pool members numbered `first` and `second` can leave behind.
pub open spec fn family(
    pool: Seq<Genotype>,
    first: int,
    second: int,
    child: Seq<u8>,
    sibling: Seq<u8>,
    sex_method: SexMethod,
    alphabet: Seq<u8>,
    mutation_rate: Rate,
    skip: Rate,
    force: bool,
) -> bool {
    &&& 0 <= first < pool.len()
    &&& 0 <= second < pool.len()
    &&& {
        ||| bred(
            (pool[first]@.genes, pool[second]@.genes),
            (child, sibling),
            sex_method,
            alphabet,
            mutation_rate,
            skip,
            force,
        )
        ||| bred(
            (pool[first]@.genes, pool[second]@.genes),
            (sibling, child),
            sex_method,
            alphabet,
            mutation_rate,
            skip,
            force,
        )
    }
}

/// Whether `child` is one of the two children of some pair of pool members.
pub open spec fn descends(
    child: Genotype,
    pool: Seq<Genotype>,
    sex_method: SexMethod,
    alphabet: Seq<u8>,
    mutation_rate: Rate,
    skip: Rate,
    force: bool,
) -> bool {
    exists|first: int, second: int, sibling: Seq<u8>|
        family(pool, first, second, child@.genes, sibling, sex_method, alphabet, mutation_rate, skip, force)
}

/// Breeds the next population from the generation's mating pool: pairs of
/// mates are drawn from the pool and reproduce until the configured size is
/// reached; of the last pair only the first child may find room.
pub fn breed<P: Problem>(generation: &Generation<P>, rng: &mut StdRng) -> (children: Vec<Genotype>)
    requires
        generation.problem.valid(),
        all_admitted(generation.problem, generation.intermediate@),
        generation.capacity > 0 ==> generation.intermediate@.len() > 0,
        !generation.skip.is_always() ==> long_enough(generation.sex_method, generation.problem.length()),
    ensures
        children@.len() == generation.capacity,
        all_admitted(generation.problem, children@),
        forall|k: int|
            0 <= k < children@.len() ==> descends(
                #[trigger] children@[k],
                generation.intermediate@,
                generation.sex_method,
                generation.problem.symbols(),
                generation.mutation_rate,
                generation.skip,
                generation.force_mutation,
            ),
{
    let mut children: Vec<Genotype> = Vec::new();
    while children.len() < generation.capacity
        invariant
            generation.problem.valid(),
            all_admitted(generation.problem, generation.intermediate@),
            generation.capacity > 0 ==> generation.intermediate@.len() > 0,
            !generation.skip.is_always() ==> long_enough(generation.sex_method, generation.problem.length()),
            children@.len() <= generation.capacity,
            all_admitted(generation.problem, children@),
            forall|k: int|
                0 <= k < children@.len() ==> descends(
                    #[trigger] children@[k],
                    generation.intermediate@,
                    generation.sex_method,
                    generation.problem.symbols(),
                    generation.mutation_rate,
                    generation.skip,
                    generation.force_mutation,
                ),
        decreases generation.capacity - children@.len(),
    {
        let one: u128 = below(rng, generation.intermediate.len() as u128);
        let other: u128 = below(rng, generation.intermediate.len() as u128);
        let mut first = generation.intermediate[one as usize].clone();
        let mut second = generation.intermediate[other as usize].clone();
        proof {
            assert(admits(&generation.problem, generation.intermediate@[one as int]));
            assert(admits(&generation.problem, generation.intermediate@[other as int]));
        }
        first.reproduce(&mut second, generation, rng);
        proof {
            assert(family(
                generation.intermediate@,
                one as int,
                other as int,
                first@.genes,
                second@.genes,
                generation.sex_method,
                generation.problem.symbols(),
                generation.mutation_rate,
                generation.skip,
                generation.force_mutation,
            ));
            assert(family(
                generation.intermediate@,
                one as int,
                other as int,
                second@.genes,
                first@.genes,
                generation.sex_method,
                generation.problem.symbols(),
                generation.mutation_rate,
                generation.skip,
                generation.force_mutation,
            ));
        }
        children.push(first);
        if children.len() < generation.capacity {
            children.push(second);
        }
    }
    children
}

/// What one generation step reports.
#[derive(Clone, Copy, Debug)]
pub struct Statistics {
    /// The number of the generation.
    pub generation: usize,
    /// How many genotypes of the new population are invalid.
    pub invalid: usize,
    /// Whether the mating pool was found crowded and the mutation rate raised.
    pub crowded: bool,
}

/// How many of the genotypes are invalid.
pub open spec fn invalid_count(genotypes: Seq<Genotype>) -> nat
    decreases genotypes.len(),
{
    if genotypes.len() == 0 {
        0
    } else {
        invalid_count(genotypes.drop_last()) + if genotypes.last().fitness is Invalid {
            1nat
        } else {
            0nat
        }
    }
}

/// Whether every genotype has the given length and only symbols of the
/// alphabet.
pub open spec fn drawn_over(genitors: Seq<Vec<u8>>, length: nat, alphabet: Seq<u8>) -> bool {
    forall|i: int|
        0 <= i < genitors.len() ==> {
            &&& (#[trigger] genitors[i])@.len() == length
            &&& forall|j: int| 0 <= j < length ==> alphabet.contains(#[trigger] genitors[i]@[j])
        }
}

/// Copies of members of a pool of admitted genotypes are admitted too.
pub proof fn lemma_drawn_admitted<P: Problem>(problem: P, pool: Seq<Genotype>, population: Seq<Genotype>)
    requires
        drawn_from(pool, population),
        all_admitted(problem, population),
    ensures
        all_admitted(problem, pool),
{
    assert forall|k: int| 0 <= k < pool.len() implies admits(&problem, #[trigger] pool[k]) by {
        assert(copy_of(pool[k], population));
        let i = choose|i: int| 0 <= i < population.len() && pool[k]@ == (#[trigger] population[i])@;
        assert(admits(&problem, population[i]));
    }
}

/// A reordering of admitted genotypes is admitted too.
pub proof fn lemma_reordered_admitted<P: Problem>(problem: P, after: Seq<Genotype>, before: Seq<Genotype>)
    requires
        after.to_multiset() == before.to_multiset(),
        all_admitted(problem, before),
    ensures
        all_admitted(problem, after),
{
    assert forall|k: int| 0 <= k < after.len() implies admits(&problem, #[trigger] after[k]) by {
        to_multiset_contains(after, after[k]);
        to_multiset_contains(before, after[k]);
        assert(after.contains(after[k]));
        let m = choose|m: int| 0 <= m < before.len() && before[m] == after[k];
        assert(admits(&problem, before[m]));
    }
}

/// Creates `population` random genotypes of the given length, every gene
/// drawn from the alphabet.
pub fn generate_genitors(population: usize, length: usize, alphabet: &Vec<u8>, rng: &mut StdRng) -> (genitors:
    Vec<Vec<u8>>)
    requires
        alphabet@.len() > 0,
    ensures
        genitors@.len() == population,
        drawn_over(genitors@, length as nat, alphabet@),
{
    let mut genitors: Vec<Vec<u8>> = Vec::new();
    while genitors.len() < population
        invariant
            alphabet@.len() > 0,
            genitors@.len() <= population,
            drawn_over(genitors@, length as nat, alphabet@),
        decreases population - genitors@.len(),
    {
        let mut genitor: Vec<u8> = Vec::new();
        while genitor.len() < length
            invariant
                alphabet@.len() > 0,
                genitor@.len() <= length,
                forall|j: int| 0 <= j < genitor@.len() ==> alphabet@.contains(#[trigger] genitor@[j]),
            decreases length - genitor@.len(),
        {
            let drawn: u128 = below(rng, alphabet.len() as u128);
            let symbol = alphabet[drawn as usize];
            proof {
                assert(alphabet@[drawn as int] == symbol);
            }
            genitor.push(symbol);
        }
        genitors.push(genitor);
    }
    genitors
}

/// Counts the invalid genotypes.
pub fn count_invalid(genotypes: &Vec<Genotype>) -> (count: usize)
    ensures
        count == invalid_count(genotypes@),
{
    let mut count: usize = 0;
    let mut position: usize = 0;
    while position < genotypes.len()
        invariant
            position <= genotypes@.len(),
            count <= position,
            count == invalid_count(genotypes@.subrange(0, position as int)),
        decreases genotypes@.len() - position,
    {
        proof {
            assert(genotypes@.subrange(0, position + 1).drop_last() =~= genotypes@.subrange(
                0,
                position as int,
            ));
        }
        if !genotypes[position].fitness.is_valid() {
            count = count + 1;
        }
        position = position + 1;
    }
    proof {
        assert(genotypes@.subrange(0, position as int) =~= genotypes@);
    }
    count
}

} // verus!
