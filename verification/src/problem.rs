//! What an optimisation problem supplies to the engine.

use crate::fitness::Fitness;
use crate::genotype::Genotype;
use crate::mutation::mutated;
use crate::rate::Rate;
use rand::rngs::StdRng;
use vstd::prelude::*;

verus! {

/// How many rounds of mutation forced creation spends on turning an invalid
/// genotype into a valid one.
pub const FORCE_ROUNDS: usize = 1_000_000;

/// Whether a genotype belongs to a problem: it has the problem's length and
/// its cached fitness is the fitness of its genes.
pub open spec fn admits<P: Problem + ?Sized>(problem: &P, genotype: Genotype) -> bool {
    &&& genotype@.genes.len() == problem.length()
    &&& genotype@.fitness == problem.fitness_of(genotype@.genes)
}

/// An optimisation problem: what a genotype means and how good it is.
///
/// The engine relies on the contracts below and on nothing else: fitness is a
/// function of the genes alone, and a problem's own mutation and creation keep
/// genotypes at the problem's length with their fitness up to date.
pub trait Problem {
    /// The length every genotype of the problem has.
    spec fn length(&self) -> nat;

    /// The symbols genes are drawn from, in order.
    spec fn symbols(&self) -> Seq<u8>;

    /// The fitness of a sequence of genes.
    spec fn fitness_of(&self, genes: Seq<u8>) -> Fitness;

    /// Whether the problem itself is in order.
    spec fn valid(&self) -> bool;

    /// Evaluates a sequence of genes.
    fn fitness(&self, genotype: &Vec<u8>) -> (fitness: Fitness)
        requires
            self.valid(),
            genotype@.len() == self.length(),
        ensures
            fitness == self.fitness_of(genotype@),
    ;

    /// Replaces each gene with probability `mutation_rate` by a symbol of the
    /// alphabet and brings the cached fitness up to date. With
    /// `force_mutation` a replaced gene differs from the one it replaces.
    fn mutate(&self, mutation_rate: Rate, force_mutation: bool, genotype: &mut Genotype, rng: &mut StdRng)
        requires
            self.valid(),
            old(genotype)@.genes.len() == self.length(),
        ensures
            final(genotype)@.genes.len() == self.length(),
            final(genotype)@.fitness == self.fitness_of(final(genotype)@.genes),
            mutated(
                old(genotype)@.genes,
                final(genotype)@.genes,
                self.symbols(),
                mutation_rate,
                force_mutation,
            ),
    ;

    /// Creates a random genotype over the alphabet; with `force_create` the
    /// problem tries for one whose fitness is valid.
    fn generate_genotype(&self, force_create: bool, rng: &mut StdRng) -> (created: Genotype)
        requires
            self.valid(),
        ensures
            created@.genes.len() == self.length(),
            created@.fitness == self.fitness_of(created@.genes),
            forall|j: int| 0 <= j < created@.genes.len() ==> self.symbols().contains(#[trigger] created@.genes[j]),
    ;

    /// Describes a genotype for a report.
    fn format(&self, g: &Genotype) -> String
        requires
            self.valid(),
            g@.genes.len() == self.length(),
    ;

    /// The symbols genes are drawn from.
    fn alphabet(&self) -> (symbols: &Vec<u8>)
        requires
            self.valid(),
        ensures
            symbols@ == self.symbols(),
            symbols@.len() > 0,
    ;

    /// The length every genotype of the problem has.
    fn len(&self) -> (length: usize)
        requires
            self.valid(),
        ensures
            length == self.length(),
    ;
}

} // verus!
