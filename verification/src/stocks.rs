//! Trading strategies: genotypes of fourteen genes that combine three moving
//! averages with two operators.
//!
//! A strategy reads `average operator average operator average`; an average
//! is a kind (`s`, `e` or `m`) followed by three digits, the days of its
//! window.

use crate::fitness::Fitness;
use crate::genotype::Genotype;
use crate::mutation::mutate_gene;
use crate::mutation::valid_alphabet;
use crate::problem::Problem;
use crate::problem::FORCE_ROUNDS;
use crate::random::below;
use crate::rate::Rate;
use crate::text::as_text;
use crate::text::write_bytes;
use rand::rngs::StdRng;
use vstd::prelude::*;
use vstd::string::StringExecFns;

verus! {

/// The number of genes of a strategy.
pub const STRATEGY_LENGTH: usize = 14;

/// A moving average over a window of days.
#[derive(Clone, Copy, Debug)]
pub enum Average {
    /// The plain mean of the window.
    Simple(usize),
    /// An exponentially weighted mean of the window.
    Exponential(usize),
    /// The maximum of the window.
    Maximum(usize),
}

/// What a position of a strategy holds.
#[derive(Clone, Copy, Debug, PartialEq, Eq, Structural)]
pub enum Slot {
    /// The kind of an average.
    Kind,
    /// A digit of an average's window.
    Digit,
    /// An operator between two averages.
    Operator,
}

/// The kinds of average: `s`, `e`, `m`.
pub open spec fn kinds() -> Seq<u8> {
    seq![115u8, 101u8, 109u8]
}

/// The digits `0` to `9`.
pub open spec fn digits() -> Seq<u8> {
    seq![48u8, 49u8, 50u8, 51u8, 52u8, 53u8, 54u8, 55u8, 56u8, 57u8]
}

/// The operators `&` and `|`.
pub open spec fn operators() -> Seq<u8> {
    seq![38u8, 124u8]
}

/// All the symbols of a strategy: operators, kinds, digits.
pub open spec fn strategy_symbols() -> Seq<u8> {
    operators() + kinds() + digits()
}

/// What the position of a strategy holds.
pub open spec fn slot_of(position: int) -> Slot {
    if position % 5 == 0 {
        Slot::Kind
    } else if position % 5 == 4 {
        Slot::Operator
    } else {
        Slot::Digit
    }
}

/// The symbols a slot can hold.
pub open spec fn slot_symbols(slot: Slot) -> Seq<u8> {
    match slot {
        Slot::Kind => kinds(),
        Slot::Digit => digits(),
        Slot::Operator => operators(),
    }
}

/// Whether the genes spell a strategy: fourteen of them, each a symbol of
/// its slot.
pub open spec fn is_strategy(genes: Seq<u8>) -> bool {
    &&& genes.len() == STRATEGY_LENGTH
    &&& forall|i: int| 0 <= i < genes.len() ==> slot_symbols(slot_of(i)).contains(#[trigger] genes[i])
}

/// Whether the byte is a digit.
pub open spec fn is_digit(symbol: u8) -> bool {
    48 <= symbol <= 57
}

/// The number three digits spell.
pub open spec fn window(hundreds: u8, tens: u8, units: u8) -> int {
    (hundreds - 48) * 100 + (tens - 48) * 10 + (units - 48)
}

/// The average four genes spell.
pub open spec fn spelled(chunk: [u8; 4]) -> Average {
    let days = window(chunk[1], chunk[2], chunk[3]) as usize;
    if chunk[0] == 115 {
        Average::Simple(days)
    } else if chunk[0] == 101 {
        Average::Exponential(days)
    } else {
        Average::Maximum(days)
    }
}

impl Average {
    /// The length of the window in days.
    pub open spec fn days(self) -> usize {
        match self {
            Average::Simple(days) => days,
            Average::Exponential(days) => days,
            Average::Maximum(days) => days,
        }
    }

    /// The length of the window in days.
    pub fn unwrap(&self) -> (days: usize)
        ensures
            days == self.days(),
    {
        match self {
            Average::Simple(x) => *x,
            Average::Exponential(x) => *x,
            Average::Maximum(x) => *x,
        }
    }
}

/// Reads the average that four genes spell: a kind and three digits.
pub fn parse(chunk: [u8; 4]) -> (average: Average)
    requires
        kinds().contains(chunk[0]),
        is_digit(chunk[1]),
        is_digit(chunk[2]),
        is_digit(chunk[3]),
    ensures
        average == spelled(chunk),
        average.days() == window(chunk[1], chunk[2], chunk[3]),
        average.days() <= 999,
{
    let days: usize = (chunk[1] - 48) as usize * 100 + (chunk[2] - 48) as usize * 10 + (chunk[3] - 48) as usize;
    if chunk[0] == 115 {
        Average::Simple(days)
    } else if chunk[0] == 101 {
        Average::Exponential(days)
    } else {
        Average::Maximum(days)
    }
}

/// What the position of a strategy holds.
pub fn slot_at(position: usize) -> (slot: Slot)
    ensures
        slot == slot_of(position as int),
{
    if position % 5 == 0 {
        Slot::Kind
    } else if position % 5 == 4 {
        Slot::Operator
    } else {
        Slot::Digit
    }
}

/// The symbols a slot can hold, in order.
pub fn symbols_of(slot: Slot) -> (symbols: Vec<u8>)
    ensures
        symbols@ == slot_symbols(slot),
        valid_alphabet(symbols@),
        symbols@.len() >= 2,
{
    let mut symbols: Vec<u8> = Vec::new();
    match slot {
        Slot::Kind => {
            symbols.push(115);
            symbols.push(101);
            symbols.push(109);
        },
        Slot::Digit => {
            let mut digit: u8 = 48;
            while digit < 58
                invariant
                    48 <= digit <= 58,
                    symbols@.len() == digit - 48,
                    forall|i: int| 0 <= i < symbols@.len() ==> symbols@[i] == 48 + i,
                decreases 58 - digit,
            {
                symbols.push(digit);
                digit = digit + 1;
            }
        },
        Slot::Operator => {
            symbols.push(38);
            symbols.push(124);
        },
    }
    proof {
        assert(symbols@ =~= slot_symbols(slot));
        assert(symbols@.no_duplicates()) by {
            assert forall|i: int, j: int|
                0 <= i < symbols@.len() && 0 <= j < symbols@.len() && i != j implies symbols@[i]
                != symbols@[j] by {}
        }
    }
    symbols
}

/// Whether the genes spell a strategy.
pub fn spells_strategy(genes: &Vec<u8>) -> (well: bool)
    ensures
        well == is_strategy(genes@),
{
    if genes.len() != STRATEGY_LENGTH {
        return false;
    }
    let mut position: usize = 0;
    while position < STRATEGY_LENGTH
        invariant
            genes@.len() == STRATEGY_LENGTH,
            position <= STRATEGY_LENGTH,
            forall|i: int| 0 <= i < position ==> slot_symbols(slot_of(i)).contains(#[trigger] genes@[i]),
        decreases STRATEGY_LENGTH - position,
    {
        let symbols = symbols_of(slot_at(position));
        let gene = genes[position];
        let mut place: usize = 0;
        while place < symbols.len() && symbols[place] != gene
            invariant
                place <= symbols@.len(),
                forall|i: int| 0 <= i < place ==> symbols@[i] != gene,
            decreases symbols@.len() - place,
        {
            place = place + 1;
        }
        if place == symbols.len() {
            proof {
                assert(!slot_symbols(slot_of(position as int)).contains(genes@[position as int]));
            }
            return false;
        }
        proof {
            assert(symbols@[place as int] == gene);
        }
        position = position + 1;
    }
    true
}

/// Mutates the genes of a strategy: each gene is replaced with probability
/// `mutation_rate` by a symbol of its own slot, by another one than it holds
/// if the mutation is forced. Returns whether any gene was replaced.
pub fn mutate_strategy(genes: &mut Vec<u8>, mutation_rate: Rate, force: bool, rng: &mut StdRng) -> (touched: bool)
    ensures
        final(genes)@.len() == old(genes)@.len(),
        forall|i: int|
            0 <= i < old(genes)@.len() ==> {
                ||| (#[trigger] final(genes)@[i]) == old(genes)@[i]
                ||| slot_symbols(slot_of(i)).contains(final(genes)@[i]) && (force ==> final(genes)@[i] != old(
                    genes,
                )@[i])
            },
        !touched ==> final(genes)@ == old(genes)@,
        mutation_rate.is_never() ==> !touched,
        mutation_rate.is_always() ==> forall|i: int|
            0 <= i < old(genes)@.len() ==> slot_symbols(slot_of(i)).contains(#[trigger] final(genes)@[i]) && (force
                ==> final(genes)@[i] != old(genes)@[i]),
        is_strategy(old(genes)@) ==> is_strategy(final(genes)@),
{
    let mut touched = false;
    let mut position: usize = 0;
    while position < genes.len()
        invariant
            genes@.len() == old(genes)@.len(),
            position <= genes@.len(),
            forall|i: int| position <= i < genes@.len() ==> genes@[i] == old(genes)@[i],
            forall|i: int|
                0 <= i < position ==> {
                    ||| (#[trigger] genes@[i]) == old(genes)@[i]
                    ||| slot_symbols(slot_of(i)).contains(genes@[i]) && (force ==> genes@[i] != old(genes)@[i])
                },
            !touched ==> genes@ == old(genes)@,
            mutation_rate.is_never() ==> !touched,
            mutation_rate.is_always() ==> forall|i: int|
                0 <= i < position ==> slot_symbols(slot_of(i)).contains(#[trigger] genes@[i]) && (force
                    ==> genes@[i] != old(genes)@[i]),
        decreases genes@.len() - position,
    {
        if mutation_rate.happens(rng) {
            let symbols = symbols_of(slot_at(position));
            let choices: usize = if force {
                symbols.len() - 1
            } else {
                symbols.len()
            };
            let drawn: u128 = below(rng, choices as u128);
            let gene = mutate_gene(genes[position], &symbols, force, drawn as usize);
            genes.set(position, gene);
            touched = true;
        }
        position = position + 1;
    }
    touched
}

/// Creates the genes of a random strategy. The leading two digits of every
/// window are `0` or `1`, so that windows stay below two hundred days.
pub fn generate_strategy(rng: &mut StdRng) -> (genes: Vec<u8>)
    ensures
        is_strategy(genes@),
        forall|i: int|
            0 <= i < genes@.len() && (i % 5 == 1 || i % 5 == 2) ==> 48 <= #[trigger] genes@[i] <= 49,
{
    let mut genes: Vec<u8> = Vec::new();
    while genes.len() < STRATEGY_LENGTH
        invariant
            genes@.len() <= STRATEGY_LENGTH,
            forall|i: int| 0 <= i < genes@.len() ==> slot_symbols(slot_of(i)).contains(#[trigger] genes@[i]),
            forall|i: int|
                0 <= i < genes@.len() && (i % 5 == 1 || i % 5 == 2) ==> 48 <= #[trigger] genes@[i] <= 49,
        decreases STRATEGY_LENGTH - genes@.len(),
    {
        let position = genes.len();
        let symbols = symbols_of(slot_at(position));
        let choices: usize = if position % 5 == 1 || position % 5 == 2 {
            2
        } else {
            symbols.len()
        };
        let drawn: u128 = below(rng, choices as u128);
        let gene = symbols[drawn as usize];
        proof {
            assert(symbols@[drawn as int] == gene);
        }
        genes.push(gene);
    }
    genes
}

/// Every symbol of a slot is a symbol of a strategy.
proof fn lemma_slots_within_alphabet()
    ensures
        forall|slot: Slot, symbol: u8| #[trigger]
            slot_symbols(slot).contains(symbol) ==> strategy_symbols().contains(symbol),
{
    assert forall|slot: Slot, symbol: u8| #[trigger]
        slot_symbols(slot).contains(symbol) implies strategy_symbols().contains(symbol) by {
        let symbols = slot_symbols(slot);
        let i = choose|i: int| 0 <= i < symbols.len() && symbols[i] == symbol;
        match slot {
            Slot::Operator => {
                assert(strategy_symbols()[i] == symbol);
            },
            Slot::Kind => {
                assert(strategy_symbols()[i + 2] == symbol);
            },
            Slot::Digit => {
                assert(strategy_symbols()[i + 5] == symbol);
            },
        }
    }
}

/// The trading-strategy problem. How much a strategy earns on a market is
/// computed by `evaluate`, which the caller supplies; the genes themselves
/// are handled here.
pub struct Market<F> {
    /// All the symbols of a strategy.
    pub alphabet: Vec<u8>,
    /// The earnings of a strategy, as a fitness.
    pub evaluate: F,
}

/// How a strategy is reported: its genes as text, and its fitness in
/// brackets.
pub open spec fn strategy_report(genes: Seq<u8>, fitness: Fitness) -> Seq<char> {
    as_text(genes) + " ("@ + fitness.spec_label() + ")"@
}

impl<F: Fn(&Vec<u8>) -> Fitness> Market<F> {
    /// Whether `evaluate` can return `fitness` for the given genes.
    pub open spec fn scores(self, genes: Seq<u8>, fitness: Fitness) -> bool {
        exists|strategy: Vec<u8>|
            strategy@ == genes && #[trigger] call_ensures(self.evaluate, (&strategy,), fitness)
    }

    /// What `evaluate` returns for the genes of a strategy.
    pub open spec fn earnings(self, genes: Seq<u8>) -> Fitness {
        choose|fitness: Fitness| self.scores(genes, fitness)
    }

    /// Whether the market is in order: it lists the symbols of a strategy,
    /// and `evaluate` accepts every strategy and returns a fitness that
    /// depends on the genes alone.
    pub open spec fn sound(self) -> bool {
        &&& self.alphabet@ == strategy_symbols()
        &&& forall|strategy: Vec<u8>|
            is_strategy(strategy@) ==> #[trigger] call_requires(self.evaluate, (&strategy,))
        &&& forall|strategy: Vec<u8>, fitness: Fitness| #[trigger]
            call_ensures(self.evaluate, (&strategy,), fitness) ==> fitness == self.earnings(strategy@)
    }

    /// A market whose strategies `evaluate` scores.
    pub fn new(evaluate: F) -> (market: Market<F>)
        ensures
            market.alphabet@ == strategy_symbols(),
            market.evaluate == evaluate,
    {
        let mut alphabet = symbols_of(Slot::Operator);
        let mut kinds = symbols_of(Slot::Kind);
        let mut digits = symbols_of(Slot::Digit);
        alphabet.append(&mut kinds);
        alphabet.append(&mut digits);
        Market { alphabet, evaluate }
    }
}

impl<F: Fn(&Vec<u8>) -> Fitness> Problem for Market<F> {
    open spec fn length(&self) -> nat {
        STRATEGY_LENGTH as nat
    }

    open spec fn symbols(&self) -> Seq<u8> {
        self.alphabet@
    }

    /// Genes that spell no strategy are invalid; a strategy has the fitness
    /// `evaluate` gives it.
    open spec fn fitness_of(&self, genes: Seq<u8>) -> Fitness {
        if is_strategy(genes) {
            self.earnings(genes)
        } else {
            Fitness::Invalid
        }
    }

    open spec fn valid(&self) -> bool {
        self.sound()
    }

    fn fitness(&self, genotype: &Vec<u8>) -> (fitness: Fitness) {
        if spells_strategy(genotype) {
            (self.evaluate)(genotype)
        } else {
            Fitness::Invalid
        }
    }

    fn mutate(&self, mutation_rate: Rate, force_mutation: bool, genotype: &mut Genotype, rng: &mut StdRng)
        ensures
            is_strategy(old(genotype)@.genes) ==> is_strategy(final(genotype)@.genes),
    {
        let touched = mutate_strategy(&mut genotype.genotype, mutation_rate, force_mutation, rng);
        proof {
            lemma_slots_within_alphabet();
            if mutation_rate.is_never() {
                assert(genotype@.genes =~= old(genotype)@.genes);
            }
        }
        genotype.fitness = self.fitness(&genotype.genotype);
    }

    /// With `force_create` an invalid strategy is mutated until it is valid,
    /// for `FORCE_ROUNDS` rounds at most.
    fn generate_genotype(&self, force_create: bool, rng: &mut StdRng) -> (created: Genotype)
        ensures
            is_strategy(created@.genes),
    {
        let genes = generate_strategy(rng);
        proof {
            lemma_slots_within_alphabet();
        }
        let fitness = self.fitness(&genes);
        let mut created = Genotype { genotype: genes, fitness };
        if force_create {
            let mut rounds: usize = 0;
            while !created.fitness.is_valid() && rounds < FORCE_ROUNDS
                invariant
                    self.sound(),
                    is_strategy(created@.genes),
                    created@.fitness == self.fitness_of(created@.genes),
                    rounds <= FORCE_ROUNDS,
                decreases FORCE_ROUNDS - rounds,
            {
                match Rate::new(1, 10) {
                    Some(tenth) => {
                        self.mutate(tenth, true, &mut created, rng);
                    },
                    None => {},
                }
                rounds = rounds + 1;
            }
        }
        created
    }

    /// Reports the genes of the genotype as text, and the fitness of its
    /// genes in brackets.
    fn format(&self, g: &Genotype) -> (text: String)
        ensures
            text@ == strategy_report(g@.genes, self.fitness_of(g@.genes)),
    {
        let fitness = self.fitness(&g.genotype).label();
        let mut text = String::new();
        write_bytes(&mut text, &g.genotype);
        text.append(" (");
        text.append(fitness.as_str());
        text.append(")");
        proof {
            assert(text@ =~= strategy_report(g@.genes, self.fitness_of(g@.genes)));
        }
        text
    }

    fn alphabet(&self) -> (symbols: &Vec<u8>) {
        &self.alphabet
    }

    fn len(&self) -> (length: usize) {
        STRATEGY_LENGTH
    }
}

} // verus!
