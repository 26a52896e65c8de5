//! Ordering genotypes by fitness, best first.

use crate::genotype::Genotype;
use vstd::prelude::*;
use vstd::seq_lib::to_multiset_contains;
use vstd::seq_lib::to_multiset_insert;
use vstd::seq_lib::to_multiset_len;
use vstd::seq_lib::to_multiset_remove;

verus! {

/// Whether the genotypes stand best first: no genotype ranks above one that
/// stands before it.
pub open spec fn best_first(genotypes: Seq<Genotype>) -> bool {
    forall|i: int, j: int|
        0 <= i < j < genotypes.len() ==> genotypes[i].fitness.rank() >= genotypes[j].fitness.rank()
}

/// Whether `winner` is one of the genotypes and none of them ranks above it.
pub open spec fn is_best(genotypes: Seq<Genotype>, winner: Genotype) -> bool {
    &&& genotypes.contains(winner)
    &&& forall|i: int| 0 <= i < genotypes.len() ==> winner.fitness.rank() >= genotypes[i].fitness.rank()
}

/// Reorders the genotypes best first.
pub fn sort_by_fitness(genotypes: &mut Vec<Genotype>)
    ensures
        best_first(final(genotypes)@),
        final(genotypes)@.len() == old(genotypes)@.len(),
        final(genotypes)@.to_multiset() == old(genotypes)@.to_multiset(),
{
    let mut sorted: Vec<Genotype> = Vec::new();
    proof {
        broadcast use vstd::multiset::group_multiset_axioms;

        to_multiset_len(sorted@);
        assert(sorted@.to_multiset().add(genotypes@.to_multiset()) =~= genotypes@.to_multiset());
    }
    while genotypes.len() > 0
        invariant
            best_first(sorted@),
            sorted@.to_multiset().add(genotypes@.to_multiset()) == old(genotypes)@.to_multiset(),
        decreases genotypes@.len(),
    {
        let ghost rest = genotypes@;
        let ghost done = sorted@;
        let last = genotypes.pop();
        match last {
            Some(next) => {
                let mut place: usize = 0;
                while place < sorted.len() && sorted[place].fitness.outranks(&next.fitness)
                    invariant
                        place <= sorted@.len(),
                        forall|i: int|
                            0 <= i < place ==> (#[trigger] sorted@[i]).fitness.rank()
                                > next.fitness.rank(),
                    decreases sorted@.len() - place,
                {
                    place = place + 1;
                }
                proof {
                    assert forall|i: int| place <= i < done.len() implies next.fitness.rank() >= (
                    #[trigger] done[i]).fitness.rank() by {
                        if i > place {
                            assert(done[place as int].fitness.rank() >= done[i].fitness.rank());
                        }
                    }
                    broadcast use vstd::multiset::group_multiset_axioms;

                    to_multiset_insert(done, place as int, next);
                    assert(genotypes@ == rest.remove(rest.len() - 1));
                    to_multiset_remove(rest, rest.len() - 1);
                    assert(rest[rest.len() - 1] == next);
                    assert(rest.contains(next));
                    to_multiset_contains(rest, next);
                    assert(rest.to_multiset() =~= genotypes@.to_multiset().insert(next));
                    assert(done.insert(place as int, next).to_multiset().add(genotypes@.to_multiset())
                        =~= done.to_multiset().add(rest.to_multiset()));
                }
                sorted.insert(place, next);
            },
            None => {},
        }
    }
    proof {
        broadcast use vstd::multiset::group_multiset_axioms;

        to_multiset_len(genotypes@);
        assert(sorted@.to_multiset().add(genotypes@.to_multiset()) =~= sorted@.to_multiset());
        to_multiset_len(sorted@);
        to_multiset_len(old(genotypes)@);
    }
    *genotypes = sorted;
}

/// The best of the genotypes, or `None` if there are none.
pub fn best_of(genotypes: &Vec<Genotype>) -> (winner: Option<&Genotype>)
    ensures
        winner is Some <==> genotypes@.len() > 0,
        winner matches Some(g) ==> is_best(genotypes@, *g),
{
    if genotypes.len() == 0 {
        return None;
    }
    let mut leader: usize = 0;
    let mut position: usize = 1;
    while position < genotypes.len()
        invariant
            1 <= position <= genotypes@.len(),
            leader < position,
            forall|i: int|
                0 <= i < position ==> genotypes@[leader as int].fitness.rank()
                    >= (#[trigger] genotypes@[i]).fitness.rank(),
        decreases genotypes@.len() - position,
    {
        if !genotypes[leader].fitness.outranks(&genotypes[position].fitness) {
            leader = position;
        }
        position = position + 1;
    }
    Some(&genotypes[leader])
}

} // verus!
