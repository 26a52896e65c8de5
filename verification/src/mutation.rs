//! Mutation: the random replacement of single genes.

use crate::random::below;
use crate::rate::Rate;
use rand::rngs::StdRng;
use vstd::prelude::*;

verus! {

/// Whether `alphabet` can serve as one: it has a symbol and lists none twice.
pub open spec fn valid_alphabet(alphabet: Seq<u8>) -> bool {
    alphabet.len() > 0 && alphabet.no_duplicates()
}

/// Whether mutation at the given rate can draw on the alphabet: at rate zero
/// any alphabet will do, since none is drawn on; otherwise it must be valid,
/// and hold a second symbol if the mutation is forced.
pub open spec fn usable_alphabet(alphabet: Seq<u8>, rate: Rate, force: bool) -> bool {
    !rate.is_never() ==> valid_alphabet(alphabet) && (force ==> alphabet.len() >= 2)
}

/// The symbol that replaces `current` when the draw comes out as `draw`.
///
/// Unforced, the draw picks a symbol of the alphabet. Forced, it picks a symbol
/// of the alphabet without `current`: symbols listed after `current` move one
/// place down.
pub open spec fn replacement(current: u8, alphabet: Seq<u8>, force: bool, draw: int) -> u8 {
    if force && alphabet.contains(current) && alphabet.index_of(current) <= draw {
        alphabet[draw + 1]
    } else {
        alphabet[draw]
    }
}

/// Whether `after` may replace `before`: it is a symbol of the alphabet, and
/// another one than `before` if the mutation is forced.
pub open spec fn replaces(before: u8, after: u8, alphabet: Seq<u8>, force: bool) -> bool {
    alphabet.contains(after) && (force ==> after != before)
}

/// Whether `after` can be what mutation makes of `before`: every gene is
/// either untouched or replaced; at rate zero all are untouched and at rate
/// one all are replaced.
pub open spec fn mutated(before: Seq<u8>, after: Seq<u8>, alphabet: Seq<u8>, rate: Rate, force: bool) -> bool {
    &&& after.len() == before.len()
    &&& forall|j: int|
        0 <= j < before.len() ==> #[trigger] after[j] == before[j] || replaces(
            before[j],
            after[j],
            alphabet,
            force,
        )
    &&& rate.is_never() ==> after == before
    &&& rate.is_always() ==> forall|j: int|
        0 <= j < before.len() ==> replaces(before[j], #[trigger] after[j], alphabet, force)
}

/// The symbol that replaces `current` for a given draw. A forced draw ranges
/// over one symbol fewer than the alphabet has.
pub fn mutate_gene(current: u8, alphabet: &Vec<u8>, force: bool, draw: usize) -> (gene: u8)
    requires
        valid_alphabet(alphabet@),
        draw < alphabet@.len(),
        force ==> draw + 1 < alphabet@.len(),
    ensures
        gene == replacement(current, alphabet@, force, draw as int),
        replaces(current, gene, alphabet@, force),
{
    if !force {
        return alphabet[draw];
    }
    let mut place: usize = 0;
    while place < alphabet.len() && alphabet[place] != current
        invariant
            place <= alphabet@.len(),
            forall|i: int| 0 <= i < place ==> #[trigger] alphabet@[i] != current,
        decreases alphabet@.len() - place,
    {
        place = place + 1;
    }
    if place <= draw {
        proof {
            assert(alphabet@[place as int] == current);
            assert(alphabet@.contains(current));
            assert(alphabet@.index_of(current) == place);
            assert(alphabet@[draw + 1] != alphabet@[place as int]);
        }
        alphabet[draw + 1]
    } else {
        proof {
            if alphabet@.contains(current) {
                assert(alphabet@.index_of(current) >= place);
            }
        }
        alphabet[draw]
    }
}

/// Replaces each gene with probability `mutation_rate` by a symbol drawn from
/// the alphabet; a forced replacement differs from the gene it replaces.
pub fn mutate_genes(genes: &mut Vec<u8>, mutation_rate: Rate, alphabet: &Vec<u8>, force: bool, rng: &mut StdRng)
    requires
        usable_alphabet(alphabet@, mutation_rate, force),
    ensures
        mutated(old(genes)@, final(genes)@, alphabet@, mutation_rate, force),
{
    if mutation_rate.is_zero() {
        return;
    }
    let choices: usize = if force {
        alphabet.len() - 1
    } else {
        alphabet.len()
    };
    let mut position: usize = 0;
    while position < genes.len()
        invariant
            valid_alphabet(alphabet@),
            choices > 0,
            choices == if force { alphabet@.len() - 1 } else { alphabet@.len() as int },
            !mutation_rate.is_never(),
            genes@.len() == old(genes)@.len(),
            position <= genes@.len(),
            forall|j: int| position <= j < genes@.len() ==> genes@[j] == old(genes)@[j],
            forall|j: int|
                0 <= j < position ==> #[trigger] genes@[j] == old(genes)@[j] || replaces(
                    old(genes)@[j],
                    genes@[j],
                    alphabet@,
                    force,
                ),
            mutation_rate.is_always() ==> forall|j: int|
                0 <= j < position ==> replaces(old(genes)@[j], #[trigger] genes@[j], alphabet@, force),
        decreases genes@.len() - position,
    {
        if mutation_rate.happens(rng) {
            let drawn: u128 = below(rng, choices as u128);
            let gene = mutate_gene(genes[position], alphabet, force, drawn as usize);
            genes.set(position, gene);
        }
        position = position + 1;
    }
}

/// Mutates both genotypes of a pair, each gene on its own.
///
/// At rate zero the pair comes back as it was, whatever the alphabet. At rate one with forced
/// mutation every gene of both differs from the gene it had.
pub fn mutate(
    child: (Vec<u8>, Vec<u8>),
    mutation_rate: Rate,
    alphabet: &Vec<u8>,
    force: bool,
    rng: &mut StdRng,
) -> (mutant: (Vec<u8>, Vec<u8>))
    requires
        usable_alphabet(alphabet@, mutation_rate, force),
    ensures
        mutated(child.0@, mutant.0@, alphabet@, mutation_rate, force),
        mutated(child.1@, mutant.1@, alphabet@, mutation_rate, force),
        mutation_rate.is_never() ==> mutant.0@ == child.0@ && mutant.1@ == child.1@,
        mutation_rate.is_always() && force ==> {
            &&& forall|j: int| 0 <= j < child.0@.len() ==> #[trigger] mutant.0@[j] != child.0@[j]
            &&& forall|j: int| 0 <= j < child.1@.len() ==> #[trigger] mutant.1@[j] != child.1@[j]
        },
{
    let (mut first, mut second) = child;
    mutate_genes(&mut first, mutation_rate, alphabet, force, rng);
    mutate_genes(&mut second, mutation_rate, alphabet, force, rng);
    (first, second)
}

} // verus!
