//! Reproduction: recombination of two mates followed by mutation.

use crate::crossover::cross;
use crate::crossover::crossed;
use crate::crossover::law_children_inherit;
use crate::crossover::law_one_switch_per_point;
use crate::crossover::sort_points;
use crate::crossover::switches;
use crate::crossover::valid_points;
use crate::methods::SexMethod;
use crate::mutation::mutate;
use crate::mutation::mutated;
use crate::mutation::usable_alphabet;
use crate::random::below;
use crate::random::choose_points;
use crate::rate::Rate;
use rand::rngs::StdRng;
use vstd::prelude::*;

verus! {

/// Whether `count` crossover points are what a method asks for on genotypes
/// of the given length. One-point and two-point crossover take as many points
/// as they name, or as many as a short genotype has room for; uniform
/// crossover takes at least three and fewer than the genotype has genes.
pub open spec fn point_count(sex_method: SexMethod, count: nat, length: nat) -> bool {
    match sex_method {
        SexMethod::One => count == if length >= 2 { 1nat } else { 0nat },
        SexMethod::Two => count == if length >= 3 { 2nat } else if length == 2 { 1nat } else { 0nat },
        SexMethod::Uniform => 3 <= count < length,
    }
}

/// Whether a method can be applied to genotypes of the given length: uniform
/// crossover needs room for three points.
pub open spec fn long_enough(sex_method: SexMethod, length: nat) -> bool {
    sex_method == SexMethod::Uniform ==> length >= 4
}

/// Whether `child` is what recombining `parent` at `points` and then mutating
/// can give.
pub open spec fn recombined(
    parent: (Seq<u8>, Seq<u8>),
    child: (Seq<u8>, Seq<u8>),
    points: Seq<usize>,
    sex_method: SexMethod,
    alphabet: Seq<u8>,
    mutation_rate: Rate,
    force: bool,
) -> bool {
    &&& valid_points(points, parent.0.len())
    &&& point_count(sex_method, points.len(), parent.0.len())
    &&& mutated(crossed(parent.0, parent.1, points).0, child.0, alphabet, mutation_rate, force)
    &&& mutated(crossed(parent.0, parent.1, points).1, child.1, alphabet, mutation_rate, force)
}

/// Whether `child` is what reproduction can make of `parent`: either the
/// parents themselves, carried over, or a mutated recombination of them. The
/// first is ruled out when the skip probability is zero, the second when it
/// is one.
pub open spec fn bred(
    parent: (Seq<u8>, Seq<u8>),
    child: (Seq<u8>, Seq<u8>),
    sex_method: SexMethod,
    alphabet: Seq<u8>,
    mutation_rate: Rate,
    skip: Rate,
    force: bool,
) -> bool {
    ||| !skip.is_never() && child == parent
    ||| !skip.is_always() && exists|points: Seq<usize>|
        recombined(parent, child, points, sex_method, alphabet, mutation_rate, force)
}

/// Where nothing mutates, every gene of a child is the gene one of the
/// parents has at that position: reproduction alone brings in no new symbol.
pub proof fn law_children_carry_parent_genes(
    parent: (Seq<u8>, Seq<u8>),
    child: (Seq<u8>, Seq<u8>),
    sex_method: SexMethod,
    alphabet: Seq<u8>,
    mutation_rate: Rate,
    skip: Rate,
    force: bool,
)
    requires
        parent.0.len() == parent.1.len(),
        bred(parent, child, sex_method, alphabet, mutation_rate, skip, force),
        mutation_rate.is_never(),
    ensures
        child.0.len() == parent.0.len(),
        child.1.len() == parent.1.len(),
        forall|j: int|
            0 <= j < parent.0.len() ==> (#[trigger] child.0[j]) == parent.0[j] || child.0[j] == parent.1[j],
        forall|j: int|
            0 <= j < parent.0.len() ==> (#[trigger] child.1[j]) == parent.0[j] || child.1[j] == parent.1[j],
{
    if child != parent {
        let points = choose|points: Seq<usize>|
            recombined(parent, child, points, sex_method, alphabet, mutation_rate, force);
        law_children_inherit(parent.0, parent.1, points);
    }
}

/// Where reproduction is never skipped and nothing mutates, children of
/// parents that differ at every position switch between their parents once
/// under one-point crossover, twice under two-point crossover and at least
/// three times under uniform crossover, given genotypes long enough to hold
/// that many points.
pub proof fn law_switches_follow_method(
    parent: (Seq<u8>, Seq<u8>),
    child: (Seq<u8>, Seq<u8>),
    sex_method: SexMethod,
    alphabet: Seq<u8>,
    mutation_rate: Rate,
    skip: Rate,
    force: bool,
)
    requires
        parent.0.len() == parent.1.len(),
        bred(parent, child, sex_method, alphabet, mutation_rate, skip, force),
        skip.is_never(),
        mutation_rate.is_never(),
        forall|j: int| 0 <= j < parent.0.len() ==> parent.0[j] != parent.1[j],
    ensures
        sex_method == SexMethod::One && parent.0.len() >= 2 ==> switches(parent, child, parent.0.len()) == 1,
        sex_method == SexMethod::Two && parent.0.len() >= 3 ==> switches(parent, child, parent.0.len()) == 2,
        sex_method == SexMethod::Uniform ==> switches(parent, child, parent.0.len()) >= 3,
{
    let points = choose|points: Seq<usize>|
        recombined(parent, child, points, sex_method, alphabet, mutation_rate, force);
    law_one_switch_per_point(parent.0, parent.1, points);
    assert(child == crossed(parent.0, parent.1, points));
}

/// Draws the crossover points for one recombination, in increasing order.
pub fn draw_points(sex_method: SexMethod, length: usize, rng: &mut StdRng) -> (points: Vec<usize>)
    requires
        long_enough(sex_method, length as nat),
    ensures
        valid_points(points@, length as nat),
        point_count(sex_method, points@.len(), length as nat),
{
    if length < 2 {
        return Vec::new();
    }
    let wanted: usize = match sex_method {
        SexMethod::One => 1,
        SexMethod::Two => 2,
        SexMethod::Uniform => {
            let extra: u128 = below(rng, (length - 3) as u128);
            extra as usize + 3
        },
    };
    let amount: usize = if wanted > length - 1 {
        length - 1
    } else {
        wanted
    };
    let drawn = choose_points(rng, length, amount);
    let points = sort_points(&drawn);
    proof {
        assert forall|i: int| 0 <= i < points@.len() implies 1 <= #[trigger] points@[i] < length by {
            assert(points@.contains(points@[i]));
            assert(drawn@.contains(points@[i]));
        }
    }
    points
}

/// Produces two children from two parents of equal length.
///
/// With probability `skip` the parents are carried over unchanged, whatever
/// the other settings. Otherwise they are recombined at freshly drawn
/// crossover points and each child is mutated.
pub fn reproduce(
    parent: (Vec<u8>, Vec<u8>),
    sex_method: SexMethod,
    alphabet: &Vec<u8>,
    mutation_rate: Rate,
    skip: Rate,
    force: bool,
    rng: &mut StdRng,
) -> (child: (Vec<u8>, Vec<u8>))
    requires
        parent.0@.len() == parent.1@.len(),
        !skip.is_always() ==> usable_alphabet(alphabet@, mutation_rate, force),
        !skip.is_always() ==> long_enough(sex_method, parent.0@.len()),
    ensures
        bred(
            (parent.0@, parent.1@),
            (child.0@, child.1@),
            sex_method,
            alphabet@,
            mutation_rate,
            skip,
            force,
        ),
        skip.is_always() ==> child.0@ == parent.0@ && child.1@ == parent.1@,
{
    if skip.happens(rng) {
        return parent;
    }
    let points = draw_points(sex_method, parent.0.len(), rng);
    let mixed = cross(&parent.0, &parent.1, &points);
    let child = mutate(mixed, mutation_rate, alphabet, force, rng);
    proof {
        assert(recombined(
            (parent.0@, parent.1@),
            (child.0@, child.1@),
            points@,
            sex_method,
            alphabet@,
            mutation_rate,
            force,
        ));
    }
    child
}

} // verus!
