//! One generation step over plain genes, scored by a function of the caller.

use crate::fitness::Fitness;
use crate::generation::generate_genitors;
use crate::genotype::Genotype;
use crate::methods::SelectionMethod;
use crate::methods::SexMethod;
use crate::mutation::valid_alphabet;
use crate::ranking::best_first;
use crate::ranking::sort_by_fitness;
use crate::random::below;
use crate::rate::Rate;
use crate::reproduction::bred;
use crate::reproduction::long_enough;
use crate::reproduction::reproduce;
use crate::selection::copy_of;
use crate::selection::select_genitors;
use crate::random::total;
use crate::selection::weights_fit;
use crate::selection::wheel_weights;
use rand::rngs::StdRng;
use vstd::prelude::*;
use vstd::seq_lib::to_multiset_contains;

verus! {

/// Whether the fitness a genotype carries is one the function can give its
/// genes.
pub open spec fn scored_by<F: Fn(&Vec<u8>) -> Fitness>(fitness: F, genotype: Genotype) -> bool {
    call_ensures(fitness, (&genotype.genotype,), genotype.fitness)
}

/// Whether genes can stand in the first population of a step: they have the
/// given length and are either among the genitors supplied or made of
/// symbols of the alphabet.
pub open spec fn stock(genes: Seq<u8>, genitors: Option<Vec<Vec<u8>>>, length: nat, alphabet: Seq<u8>) -> bool {
    &&& genes.len() == length
    &&& {
        ||| genitors matches Some(given) && exists|i: int| 0 <= i < given@.len() && (#[trigger] given@[i])@ == genes
        ||| forall|j: int| 0 <= j < length ==> alphabet.contains(#[trigger] genes[j])
    }
}

/// Whether `child` and `sibling` are the two children that `first` and
/// `second`, both of the stock, can leave behind.
pub open spec fn kin(
    first: Seq<u8>,
    second: Seq<u8>,
    child: Seq<u8>,
    sibling: Seq<u8>,
    genitors: Option<Vec<Vec<u8>>>,
    length: nat,
    alphabet: Seq<u8>,
    sex_method: SexMethod,
    mutation_rate: Rate,
    skip: Rate,
    force: bool,
) -> bool {
    &&& stock(first, genitors, length, alphabet)
    &&& stock(second, genitors, length, alphabet)
    &&& {
        ||| bred((first, second), (child, sibling), sex_method, alphabet, mutation_rate, skip, force)
        ||| bred((first, second), (sibling, child), sex_method, alphabet, mutation_rate, skip, force)
    }
}

/// Whether `child` is one of the two children of some pair of the stock.
pub open spec fn stems(
    child: Seq<u8>,
    genitors: Option<Vec<Vec<u8>>>,
    length: nat,
    alphabet: Seq<u8>,
    sex_method: SexMethod,
    mutation_rate: Rate,
    skip: Rate,
    force: bool,
) -> bool {
    exists|first: Seq<u8>, second: Seq<u8>, sibling: Seq<u8>|
        kin(first, second, child, sibling, genitors, length, alphabet, sex_method, mutation_rate, skip, force)
}

/// Whether `start` is a first population that the roulette wheel cannot
/// hold: every member is of the stock and carries a fitness the function can
/// give it, and the weights add up to more than 64 bits hold.
pub open spec fn overweight<F: Fn(&Vec<u8>) -> Fitness>(
    fitness: F,
    start: Seq<Genotype>,
    genitors: Option<Vec<Vec<u8>>>,
    length: nat,
    alphabet: Seq<u8>,
) -> bool {
    &&& start.len() > 0
    &&& forall|i: int| 0 <= i < start.len() ==> scored_by(fitness, #[trigger] start[i])
    &&& forall|i: int| 0 <= i < start.len() ==> stock((#[trigger] start[i])@.genes, genitors, length, alphabet)
    &&& total(wheel_weights(start)) > u64::MAX
}

/// Scores every one of the genes.
pub fn evaluate<F: Fn(&Vec<u8>) -> Fitness>(fitness: &F, genes: Vec<Vec<u8>>) -> (scored: Vec<Genotype>)
    requires
        forall|g: Vec<u8>| #[trigger] call_requires(*fitness, (&g,)),
    ensures
        scored@.len() == genes@.len(),
        forall|i: int| 0 <= i < scored@.len() ==> (#[trigger] scored@[i])@.genes == genes@[i]@,
        forall|i: int| 0 <= i < scored@.len() ==> scored_by(*fitness, #[trigger] scored@[i]),
{
    let mut rest = genes;
    let mut scored: Vec<Genotype> = Vec::new();
    while rest.len() > 0
        invariant
            forall|g: Vec<u8>| #[trigger] call_requires(*fitness, (&g,)),
            rest@.len() <= genes@.len(),
            rest@ == genes@.subrange(0, rest@.len() as int),
            scored@.len() == genes@.len() - rest@.len(),
            forall|i: int|
                0 <= i < scored@.len() ==> (#[trigger] scored@[i])@.genes == genes@[genes@.len() - 1 - i]@,
            forall|i: int| 0 <= i < scored@.len() ==> scored_by(*fitness, #[trigger] scored@[i]),
        decreases rest@.len(),
    {
        match rest.pop() {
            Some(genotype) => {
                let fit = fitness(&genotype);
                scored.push(Genotype { fitness: fit, genotype });
            },
            None => {},
        }
    }
    let mut ordered: Vec<Genotype> = Vec::new();
    while scored.len() > 0
        invariant
            scored@.len() + ordered@.len() == genes@.len(),
            forall|i: int|
                0 <= i < scored@.len() ==> (#[trigger] scored@[i])@.genes == genes@[genes@.len() - 1 - i]@,
            forall|i: int| 0 <= i < scored@.len() ==> scored_by(*fitness, #[trigger] scored@[i]),
            forall|i: int| 0 <= i < ordered@.len() ==> (#[trigger] ordered@[i])@.genes == genes@[i]@,
            forall|i: int| 0 <= i < ordered@.len() ==> scored_by(*fitness, #[trigger] ordered@[i]),
        decreases scored@.len(),
    {
        match scored.pop() {
            Some(genotype) => {
                ordered.push(genotype);
            },
            None => {},
        }
    }
    ordered
}

/// Produces the next generation from a set of genitors.
///
/// Random genitors over the alphabet top the given ones up to `population`.
/// All are scored, a mating pool of `intermediate_population` is selected,
/// and pairs drawn from the pool reproduce until `population` children are
/// there; these are scored and returned best first.
///
/// The result is `None` only under fitness-proportionate selection, and only
/// when the weights of the scored genitors add up to more than the roulette
/// wheel can hold.
pub fn generate_generation<F: Fn(&Vec<u8>) -> Fitness>(
    fitness: &F,
    genitors: Option<Vec<Vec<u8>>>,
    population: usize,
    intermediate_population: usize,
    length: usize,
    alphabet: &Vec<u8>,
    selection_method: SelectionMethod,
    sex_method: SexMethod,
    mutation_rate: Rate,
    skip: Rate,
    force: bool,
    rng: &mut StdRng,
) -> (next: Option<Vec<Genotype>>)
    requires
        forall|g: Vec<u8>| #[trigger] call_requires(*fitness, (&g,)),
        genitors matches Some(given) ==> forall|i: int|
            0 <= i < given@.len() ==> (#[trigger] given@[i])@.len() == length,
        valid_alphabet(alphabet@),
        force ==> alphabet@.len() >= 2,
        population > 0 ==> intermediate_population > 0,
        !skip.is_always() ==> long_enough(sex_method, length as nat),
    ensures
        next is None ==> selection_method == SelectionMethod::Replacement && exists|start: Seq<Genotype>| #[trigger]
            overweight(*fitness, start, genitors, length as nat, alphabet@),
        next matches Some(children) ==> {
            &&& children@.len() == population
            &&& best_first(children@)
            &&& forall|k: int| 0 <= k < children@.len() ==> scored_by(*fitness, #[trigger] children@[k])
            &&& forall|k: int|
                0 <= k < children@.len() ==> stems(
                    (#[trigger] children@[k])@.genes,
                    genitors,
                    length as nat,
                    alphabet@,
                    sex_method,
                    mutation_rate,
                    skip,
                    force,
                )
        },
{
    if population == 0 {
        return Some(Vec::new());
    }
    let mut genes: Vec<Vec<u8>> = match &genitors {
        Some(given) => given.clone(),
        None => Vec::new(),
    };
    proof {
        assert forall|i: int| 0 <= i < genes@.len() implies stock(
            (#[trigger] genes@[i])@,
            genitors,
            length as nat,
            alphabet@,
        ) by {
            let given = genitors->0;
            assert(given@[i]@ == genes@[i]@);
        }
    }
    if genes.len() < population {
        let mut fresh = generate_genitors(population - genes.len(), length, alphabet, rng);
        genes.append(&mut fresh);
    }
    let start = evaluate(fitness, genes);
    proof {
        assert forall|i: int| 0 <= i < start@.len() implies stock(
            (#[trigger] start@[i])@.genes,
            genitors,
            length as nat,
            alphabet@,
        ) by {
            assert(start@[i]@.genes == genes@[i]@);
        }
    }
    if selection_method == SelectionMethod::Replacement && !weights_fit(&start) {
        proof {
            assert(overweight(*fitness, start@, genitors, length as nat, alphabet@));
        }
        return None;
    }
    let pool = select_genitors(&start, intermediate_population, selection_method, rng);
    proof {
        assert forall|k: int| 0 <= k < pool@.len() implies stock(
            (#[trigger] pool@[k])@.genes,
            genitors,
            length as nat,
            alphabet@,
        ) by {
            assert(copy_of(pool@[k], start@));
            let i = choose|i: int| 0 <= i < start@.len() && pool@[k]@ == (#[trigger] start@[i])@;
            assert(stock(start@[i]@.genes, genitors, length as nat, alphabet@));
        }
    }
    let mut children: Vec<Genotype> = Vec::new();
    while children.len() < population
        invariant
            forall|g: Vec<u8>| #[trigger] call_requires(*fitness, (&g,)),
            valid_alphabet(alphabet@),
            force ==> alphabet@.len() >= 2,
            !skip.is_always() ==> long_enough(sex_method, length as nat),
            pool@.len() > 0,
            forall|k: int|
                0 <= k < pool@.len() ==> stock((#[trigger] pool@[k])@.genes, genitors, length as nat, alphabet@),
            children@.len() <= population,
            forall|k: int| 0 <= k < children@.len() ==> scored_by(*fitness, #[trigger] children@[k]),
            forall|k: int|
                0 <= k < children@.len() ==> stems(
                    (#[trigger] children@[k])@.genes,
                    genitors,
                    length as nat,
                    alphabet@,
                    sex_method,
                    mutation_rate,
                    skip,
                    force,
                ),
        decreases population - children@.len(),
    {
        let one: u128 = below(rng, pool.len() as u128);
        let other: u128 = below(rng, pool.len() as u128);
        let first = pool[one as usize].genotype.clone();
        let second = pool[other as usize].genotype.clone();
        proof {
            assert(stock(pool@[one as int]@.genes, genitors, length as nat, alphabet@));
            assert(stock(pool@[other as int]@.genes, genitors, length as nat, alphabet@));
        }
        let ghost mates = (first@, second@);
        let (son, daughter) = reproduce((first, second), sex_method, alphabet, mutation_rate, skip, force, rng);
        proof {
            assert(kin(
                mates.0,
                mates.1,
                son@,
                daughter@,
                genitors,
                length as nat,
                alphabet@,
                sex_method,
                mutation_rate,
                skip,
                force,
            ));
            assert(kin(
                mates.0,
                mates.1,
                daughter@,
                son@,
                genitors,
                length as nat,
                alphabet@,
                sex_method,
                mutation_rate,
                skip,
                force,
            ));
        }
        let son_fitness = fitness(&son);
        children.push(Genotype { fitness: son_fitness, genotype: son });
        if children.len() < population {
            let daughter_fitness = fitness(&daughter);
            children.push(Genotype { fitness: daughter_fitness, genotype: daughter });
        }
    }
    let ghost unsorted = children@;
    sort_by_fitness(&mut children);
    proof {
        assert forall|k: int| 0 <= k < children@.len() implies scored_by(*fitness, #[trigger] children@[k])
            && stems(
            children@[k]@.genes,
            genitors,
            length as nat,
            alphabet@,
            sex_method,
            mutation_rate,
            skip,
            force,
        ) by {
            to_multiset_contains(children@, children@[k]);
            to_multiset_contains(unsorted, children@[k]);
            assert(children@.contains(children@[k]));
            let m = choose|m: int| 0 <= m < unsorted.len() && unsorted[m] == children@[k];
            assert(scored_by(*fitness, unsorted[m]));
        }
    }
    Some(children)
}

} // verus!
