//! The knapsack problem: which items to pack under a weight limit.

use crate::fitness::Fitness;
use crate::fitness::FITNESS_UNIT;
use crate::genotype::Genotype;
use crate::mutation::mutate_genes;
use crate::mutation::valid_alphabet;
use crate::problem::Problem;
use crate::problem::FORCE_ROUNDS;
use crate::random::below;
use crate::rate::Rate;
use crate::text::decimal;
use crate::text::write_decimal;
use rand::rngs::StdRng;
use vstd::prelude::*;
use vstd::string::StringExecFns;

verus! {

/// The gene of an item left out: the character `0`.
pub const LEFT: u8 = 48;

/// The gene of an item packed: the character `1`.
pub const PACKED: u8 = 49;

/// A knapsack problem: items of a weight and a value each, and the weight the
/// knapsack holds. Gene `i` of a genotype says whether item `i` is packed.
pub struct Knapsack {
    /// The two genes, left and packed.
    pub alphabet: Vec<u8>,
    /// The items, as pairs of weight and value.
    pub items: Vec<(usize, usize)>,
    /// The weight the knapsack holds.
    pub max_weight: usize,
}

/// The weight of the first `upto` items, added up.
pub open spec fn total_weight(items: Seq<(usize, usize)>, upto: nat) -> nat
    decreases upto,
{
    if upto == 0 {
        0
    } else {
        total_weight(items, (upto - 1) as nat) + items[upto - 1].0 as nat
    }
}

/// The value of the first `upto` items, added up.
pub open spec fn total_value(items: Seq<(usize, usize)>, upto: nat) -> nat
    decreases upto,
{
    if upto == 0 {
        0
    } else {
        total_value(items, (upto - 1) as nat) + items[upto - 1].1 as nat
    }
}

/// The weight of those of the first `upto` items that the genes pack.
pub open spec fn packed_weight(items: Seq<(usize, usize)>, genes: Seq<u8>, upto: nat) -> nat
    decreases upto,
{
    if upto == 0 {
        0
    } else {
        packed_weight(items, genes, (upto - 1) as nat) + if genes[upto - 1] == PACKED {
            items[upto - 1].0 as nat
        } else {
            0nat
        }
    }
}

/// The value of those of the first `upto` items that the genes pack.
pub open spec fn packed_value(items: Seq<(usize, usize)>, genes: Seq<u8>, upto: nat) -> nat
    decreases upto,
{
    if upto == 0 {
        0
    } else {
        packed_value(items, genes, (upto - 1) as nat) + if genes[upto - 1] == PACKED {
            items[upto - 1].1 as nat
        } else {
            0nat
        }
    }
}

/// The score of a packing that respects the weight limit: its value `v`
/// squashed into the unit interval as `v / (v + max_weight)`, in millionths
/// and rounded down.
pub open spec fn squashed(value: nat, max_weight: nat) -> nat {
    (value * FITNESS_UNIT as nat) / (value + max_weight)
}

/// The fitness of a packing: invalid if it is too heavy, else its squashed
/// value.
pub open spec fn packing_fitness(items: Seq<(usize, usize)>, max_weight: nat, genes: Seq<u8>) -> Fitness {
    if packed_weight(items, genes, items.len()) > max_weight {
        Fitness::Invalid
    } else {
        Fitness::Valid(squashed(packed_value(items, genes, items.len()), max_weight) as u64)
    }
}

/// What is packed is no more than what there is.
proof fn lemma_packed_bounds(items: Seq<(usize, usize)>, genes: Seq<u8>, upto: nat)
    ensures
        packed_weight(items, genes, upto) <= total_weight(items, upto),
        packed_value(items, genes, upto) <= total_value(items, upto),
    decreases upto,
{
    if upto > 0 {
        lemma_packed_bounds(items, genes, (upto - 1) as nat);
    }
}

/// Totals grow with the number of items counted.
proof fn lemma_totals_grow(items: Seq<(usize, usize)>, fewer: nat, more: nat)
    requires
        fewer <= more,
    ensures
        total_weight(items, fewer) <= total_weight(items, more),
        total_value(items, fewer) <= total_value(items, more),
    decreases more,
{
    if fewer < more {
        lemma_totals_grow(items, fewer, (more - 1) as nat);
    }
}

/// A knapsack with nothing packed weighs nothing.
proof fn lemma_nothing_packed(items: Seq<(usize, usize)>, genes: Seq<u8>, upto: nat)
    requires
        forall|i: int| 0 <= i < upto ==> genes[i] != PACKED,
    ensures
        packed_weight(items, genes, upto) == 0,
        packed_value(items, genes, upto) == 0,
    decreases upto,
{
    if upto > 0 {
        lemma_nothing_packed(items, genes, (upto - 1) as nat);
    }
}

/// A squashed value stays below one unit.
proof fn lemma_squashed_below_unit(value: nat, max_weight: nat)
    requires
        max_weight > 0,
    ensures
        squashed(value, max_weight) < FITNESS_UNIT,
{
    let unit = FITNESS_UNIT as nat;
    let whole = value + max_weight;
    assert(value * unit < whole * unit) by (nonlinear_arith)
        requires
            value < whole,
            unit > 0,
    ;
    assert((value * unit) / whole < unit) by (nonlinear_arith)
        requires
            value * unit < whole * unit,
            whole > 0,
    ;
}

impl Knapsack {
    /// Whether the knapsack is in order: two genes, a weight limit above
    /// zero, and items whose weights and whose values each add up to a
    /// number that fits 64 bits.
    pub open spec fn sound(self) -> bool {
        &&& self.alphabet@ == seq![LEFT, PACKED]
        &&& self.max_weight > 0
        &&& total_weight(self.items@, self.items@.len()) <= u64::MAX
        &&& total_value(self.items@, self.items@.len()) <= u64::MAX
    }

    /// A knapsack of the given limit and items, or `None` if the limit is
    /// zero or the items' weights or values add up to more than 64 bits hold.
    pub fn new(max_weight: usize, items: Vec<(usize, usize)>) -> (made: Option<Knapsack>)
        ensures
            made is Some <==> {
                &&& max_weight > 0
                &&& total_weight(items@, items@.len()) <= u64::MAX
                &&& total_value(items@, items@.len()) <= u64::MAX
            },
            made matches Some(knapsack) ==> {
                &&& knapsack.sound()
                &&& knapsack.items@ == items@
                &&& knapsack.max_weight == max_weight
            },
    {
        if max_weight == 0 {
            return None;
        }
        let mut weight: u64 = 0;
        let mut value: u64 = 0;
        let mut position: usize = 0;
        while position < items.len()
            invariant
                position <= items@.len(),
                weight == total_weight(items@, position as nat),
                value == total_value(items@, position as nat),
            decreases items@.len() - position,
        {
            let item = items[position];
            if item.0 as u64 > u64::MAX - weight || item.1 as u64 > u64::MAX - value {
                proof {
                    lemma_totals_grow(items@, (position + 1) as nat, items@.len());
                }
                return None;
            }
            weight = weight + item.0 as u64;
            value = value + item.1 as u64;
            position = position + 1;
        }
        let mut alphabet: Vec<u8> = Vec::new();
        alphabet.push(LEFT);
        alphabet.push(PACKED);
        proof {
            assert(alphabet@ =~= seq![LEFT, PACKED]);
        }
        Some(Knapsack { alphabet, items, max_weight })
    }

    /// The weight and the value of what the genes pack.
    pub fn load(&self, genes: &Vec<u8>) -> (packed: (u64, u64))
        requires
            self.sound(),
            genes@.len() == self.items@.len(),
        ensures
            packed.0 == packed_weight(self.items@, genes@, self.items@.len()),
            packed.1 == packed_value(self.items@, genes@, self.items@.len()),
    {
        let mut weight: u64 = 0;
        let mut value: u64 = 0;
        let mut position: usize = 0;
        while position < self.items.len()
            invariant
                self.sound(),
                genes@.len() == self.items@.len(),
                position <= self.items@.len(),
                weight == packed_weight(self.items@, genes@, position as nat),
                value == packed_value(self.items@, genes@, position as nat),
            decreases self.items@.len() - position,
        {
            proof {
                lemma_packed_bounds(self.items@, genes@, (position + 1) as nat);
                lemma_totals_grow(self.items@, (position + 1) as nat, self.items@.len());
            }
            if genes[position] == PACKED {
                weight = weight + self.items[position].0 as u64;
                value = value + self.items[position].1 as u64;
            }
            position = position + 1;
        }
        (weight, value)
    }
}

/// How a packing is reported: the weight and the value of what is packed,
/// and the fitness.
pub open spec fn packing_report(items: Seq<(usize, usize)>, max_weight: nat, genes: Seq<u8>) -> Seq<char> {
    "weight: "@ + decimal(packed_weight(items, genes, items.len())) + ", value: "@ + decimal(
        packed_value(items, genes, items.len()),
    ) + ", fitness: "@ + packing_fitness(items, max_weight, genes).spec_label()
}

impl Problem for Knapsack {
    open spec fn length(&self) -> nat {
        self.items@.len()
    }

    open spec fn symbols(&self) -> Seq<u8> {
        self.alphabet@
    }

    open spec fn fitness_of(&self, genes: Seq<u8>) -> Fitness {
        packing_fitness(self.items@, self.max_weight as nat, genes)
    }

    open spec fn valid(&self) -> bool {
        self.sound()
    }

    fn fitness(&self, genotype: &Vec<u8>) -> (fitness: Fitness) {
        let (weight, value) = self.load(genotype);
        if weight > self.max_weight as u64 {
            Fitness::Invalid
        } else {
            proof {
                lemma_squashed_below_unit(value as nat, self.max_weight as nat);
                assert(value * FITNESS_UNIT <= u64::MAX * FITNESS_UNIT) by (nonlinear_arith)
                    requires
                        value <= u64::MAX,
                ;
            }
            let scaled: u128 = value as u128 * FITNESS_UNIT as u128;
            let whole: u128 = value as u128 + self.max_weight as u128;
            Fitness::Valid((scaled / whole) as u64)
        }
    }

    fn mutate(&self, mutation_rate: Rate, force_mutation: bool, genotype: &mut Genotype, rng: &mut StdRng) {
        proof {
            assert(valid_alphabet(self.alphabet@)) by {
                assert(self.alphabet@[0] != self.alphabet@[1]);
            }
        }
        mutate_genes(&mut genotype.genotype, mutation_rate, &self.alphabet, force_mutation, rng);
        genotype.fitness = self.fitness(&genotype.genotype);
    }

    /// With `force_create` an invalid genotype is mutated until it is valid;
    /// should that take more than `FORCE_ROUNDS` rounds, the empty knapsack is
    /// returned.
    fn generate_genotype(&self, force_create: bool, rng: &mut StdRng) -> (created: Genotype)
        ensures
            force_create ==> created@.fitness is Valid,
    {
        let length = self.items.len();
        let mut genes: Vec<u8> = Vec::new();
        while genes.len() < length
            invariant
                self.sound(),
                length == self.items@.len(),
                genes@.len() <= length,
                forall|j: int| 0 <= j < genes@.len() ==> self.alphabet@.contains(#[trigger] genes@[j]),
            decreases length - genes@.len(),
        {
            let drawn: u128 = below(rng, self.alphabet.len() as u128);
            let symbol = self.alphabet[drawn as usize];
            proof {
                assert(self.alphabet@[drawn as int] == symbol);
            }
            genes.push(symbol);
        }
        let fitness = self.fitness(&genes);
        let mut created = Genotype { genotype: genes, fitness };
        if force_create {
            let mut rounds: usize = 0;
            while !created.fitness.is_valid() && rounds < FORCE_ROUNDS
                invariant
                    self.sound(),
                    created@.genes.len() == self.items@.len(),
                    created@.fitness == self.fitness_of(created@.genes),
                    forall|j: int|
                        0 <= j < created@.genes.len() ==> self.alphabet@.contains(#[trigger] created@.genes[j]),
                    rounds <= FORCE_ROUNDS,
                decreases FORCE_ROUNDS - rounds,
            {
                match Rate::new(1, 10) {
                    Some(tenth) => {
                        self.mutate(tenth, true, &mut created, rng);
                    },
                    None => {},
                }
                rounds = rounds + 1;
            }
            if !created.fitness.is_valid() {
                let mut empty: Vec<u8> = Vec::new();
                while empty.len() < length
                    invariant
                        empty@.len() <= length,
                        forall|i: int| 0 <= i < empty@.len() ==> empty@[i] == LEFT,
                    decreases length - empty@.len(),
                {
                    empty.push(LEFT);
                }
                proof {
                    lemma_nothing_packed(self.items@, empty@, self.items@.len());
                    assert(self.alphabet@[0] == LEFT);
                }
                let fitness = self.fitness(&empty);
                created = Genotype { genotype: empty, fitness };
            }
        }
        created
    }

    /// Reports the weight and the value of what the genotype packs, and the
    /// fitness of its genes.
    fn format(&self, g: &Genotype) -> (text: String)
        ensures
            text@ == packing_report(self.items@, self.max_weight as nat, g@.genes),
    {
        let (weight, value) = self.load(&g.genotype);
        let fitness = self.fitness(&g.genotype).label();
        let mut text = String::new();
        text.append("weight: ");
        write_decimal(&mut text, weight);
        text.append(", value: ");
        write_decimal(&mut text, value);
        text.append(", fitness: ");
        text.append(fitness.as_str());
        proof {
            assert(text@ =~= packing_report(self.items@, self.max_weight as nat, g@.genes));
        }
        text
    }

    fn alphabet(&self) -> (symbols: &Vec<u8>) {
        &self.alphabet
    }

    fn len(&self) -> (length: usize) {
        self.items.len()
    }
}

} // verus!
