//! One candidate solution.

use crate::crossover::cross;
use crate::fitness::Fitness;
use crate::generation::spelled_over;
use crate::generation::Generation;
use crate::problem::admits;
use crate::problem::Problem;
use crate::reproduction::bred;
use crate::reproduction::draw_points;
use crate::reproduction::long_enough;
use crate::reproduction::recombined;
use crate::text::as_text;
use crate::text::write_bytes;
use rand::rngs::StdRng;
use vstd::prelude::*;
use vstd::string::StringExecFns;

verus! {

/// A candidate solution: its genes and the fitness last computed for them.
#[derive(Debug)]
pub struct Genotype {
    /// The fitness cached for the genes.
    pub fitness: Fitness,
    /// The genes, one symbol each.
    pub genotype: Vec<u8>,
}

/// What a genotype is, as a mathematical value.
pub struct Individual {
    /// The cached fitness.
    pub fitness: Fitness,
    /// The genes in order.
    pub genes: Seq<u8>,
}

impl View for Genotype {
    type V = Individual;

    open spec fn view(&self) -> Individual {
        Individual { fitness: self.fitness, genes: self.genotype@ }
    }
}

impl Clone for Genotype {
    /// A full copy of the value; nothing is shared between the two.
    fn clone(&self) -> (copy: Genotype)
        ensures
            copy@ == self@,
    {
        Genotype { fitness: self.fitness, genotype: self.genotype.clone() }
    }
}

/// The individuals a list of genotypes holds, in order.
pub open spec fn individuals(genotypes: Seq<Genotype>) -> Seq<Individual> {
    genotypes.map_values(|g: Genotype| g@)
}

/// Whether two mates came through reproduction as they were, genes and
/// cached fitness.
pub open spec fn carried(first: Genotype, second: Genotype, one: Genotype, other: Genotype) -> bool {
    one@ == first@ && other@ == second@
}

impl Genotype {
    /// A fresh genotype of the generation's problem, over the problem's
    /// alphabet.
    pub fn new<P: Problem>(generation: &Generation<P>, rng: &mut StdRng) -> (created: Genotype)
        requires
            generation.problem.valid(),
        ensures
            admits(&generation.problem, created),
            spelled_over(created@.genes, generation.problem.symbols()),
    {
        generation.problem.generate_genotype(generation.force_create, rng)
    }

    /// Turns `self` and `mate` into their two children.
    ///
    /// With the generation's skip probability both are left as they are,
    /// cached fitness included. Otherwise they are recombined at freshly
    /// drawn crossover points and each child goes through the problem's
    /// mutation, which brings its fitness up to date. The cached fitness of a
    /// mate may be stale when it comes in; it is up to date afterwards if it
    /// was before, or if the mates were not carried over.
    pub fn reproduce<P: Problem>(&mut self, mate: &mut Genotype, generation: &Generation<P>, rng: &mut StdRng)
        requires
            generation.problem.valid(),
            old(self)@.genes.len() == generation.problem.length(),
            old(mate)@.genes.len() == generation.problem.length(),
            !generation.skip.is_always() ==> long_enough(generation.sex_method, generation.problem.length()),
        ensures
            final(self)@.genes.len() == generation.problem.length(),
            final(mate)@.genes.len() == generation.problem.length(),
            carried(*old(self), *old(mate), *final(self), *final(mate)) || (admits(
                &generation.problem,
                *final(self),
            ) && admits(&generation.problem, *final(mate))),
            admits(&generation.problem, *old(self)) ==> admits(&generation.problem, *final(self)),
            admits(&generation.problem, *old(mate)) ==> admits(&generation.problem, *final(mate)),
            generation.skip.is_never() ==> admits(&generation.problem, *final(self)) && admits(
                &generation.problem,
                *final(mate),
            ),
            bred(
                (old(self)@.genes, old(mate)@.genes),
                (final(self)@.genes, final(mate)@.genes),
                generation.sex_method,
                generation.problem.symbols(),
                generation.mutation_rate,
                generation.skip,
                generation.force_mutation,
            ),
            generation.skip.is_always() ==> final(self)@ == old(self)@ && final(mate)@ == old(mate)@,
    {
        if generation.skip.happens(rng) {
            return;
        }
        let points = draw_points(generation.sex_method, self.genotype.len(), rng);
        let children = cross(&self.genotype, &mate.genotype, &points);
        self.genotype = children.0;
        mate.genotype = children.1;
        generation.problem.mutate(generation.mutation_rate, generation.force_mutation, self, rng);
        generation.problem.mutate(generation.mutation_rate, generation.force_mutation, mate, rng);
        proof {
            assert(recombined(
                (old(self)@.genes, old(mate)@.genes),
                (self@.genes, mate@.genes),
                points@,
                generation.sex_method,
                generation.problem.symbols(),
                generation.mutation_rate,
                generation.force_mutation,
            ));
        }
    }

    /// The genotype as it is reported: its genes as text, a colon, and its
    /// fitness.
    pub open spec fn spec_label(self) -> Seq<char> {
        as_text(self@.genes) + ": "@ + self.fitness.spec_label()
    }

    /// The genotype as it is reported: its genes as text, a colon, and its
    /// fitness.
    pub fn label(&self) -> (text: String)
        ensures
            text@ == self.spec_label(),
    {
        let mut text = String::new();
        write_bytes(&mut text, &self.genotype);
        text.append(": ");
        let fitness = self.fitness.label();
        text.append(fitness.as_str());
        proof {
            assert(text@ =~= self.spec_label());
        }
        text
    }

    /// The number of genes.
    pub fn len(&self) -> (length: usize)
        ensures
            length == self@.genes.len(),
    {
        self.genotype.len()
    }

    /// A genotype of the given genes and fitness.
    pub fn from(genotype: Vec<u8>, fitness: Fitness) -> (made: Genotype)
        ensures
            made@ == (Individual { fitness, genes: genotype@ }),
    {
        Genotype { genotype, fitness }
    }
}

} // verus!
