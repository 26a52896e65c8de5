//! Recombination of two parents at a set of crossover points.
//!
//! The points cut both parents into segments: the first runs up to the first
//! point, the last from the last point to the end. Segments are numbered from
//! zero, and the parents exchange every segment with an even number.

use vstd::prelude::*;

verus! {

/// The number of the segment a position lies in: how many points are at or
/// below it.
pub open spec fn segment_of(points: Seq<usize>, position: int) -> nat
    decreases points.len(),
{
    if points.len() == 0 {
        0
    } else {
        segment_of(points.drop_last(), position) + if points.last() <= position {
            1nat
        } else {
            0nat
        }
    }
}

/// Whether the parents exchange their genes at a position.
pub open spec fn exchanged(points: Seq<usize>, position: int) -> bool {
    segment_of(points, position) % 2 == 0
}

/// Whether `points` is a set of crossover points for genotypes of the given
/// length: strictly increasing, none at the very start and all within the
/// genotype.
pub open spec fn valid_points(points: Seq<usize>, length: nat) -> bool {
    &&& forall|i: int| 0 <= i < points.len() ==> 1 <= #[trigger] points[i] < length
    &&& forall|i: int, j: int| 0 <= i < j < points.len() ==> points[i] < points[j]
}

/// The two children of two parents of equal length.
pub open spec fn crossed(first: Seq<u8>, second: Seq<u8>, points: Seq<usize>) -> (Seq<u8>, Seq<u8>) {
    (
        Seq::new(
            first.len(),
            |j: int|
                if exchanged(points, j) {
                    second[j]
                } else {
                    first[j]
                },
        ),
        Seq::new(
            second.len(),
            |j: int|
                if exchanged(points, j) {
                    first[j]
                } else {
                    second[j]
                },
        ),
    )
}

/// Whether both children have their own parent's genes at a position.
pub open spec fn kept(parents: (Seq<u8>, Seq<u8>), children: (Seq<u8>, Seq<u8>), position: int) -> bool {
    children.0[position] == parents.0[position] && children.1[position] == parents.1[position]
}

/// How often, scanning the first `length` positions, the children switch
/// between keeping their own parent's genes and not keeping them.
pub open spec fn switches(parents: (Seq<u8>, Seq<u8>), children: (Seq<u8>, Seq<u8>), length: nat) -> nat
    decreases length,
{
    if length <= 1 {
        0
    } else {
        switches(parents, children, (length - 1) as nat) + if kept(parents, children, length - 1) != kept(
            parents,
            children,
            length - 2,
        ) {
            1nat
        } else {
            0nat
        }
    }
}

/// With increasing points, the first `count` of which are at or below a
/// position and the rest above it, the position lies in segment `count`.
proof fn lemma_segment_of_split(points: Seq<usize>, position: int, count: int)
    requires
        0 <= count <= points.len(),
        forall|i: int| 0 <= i < count ==> #[trigger] points[i] <= position,
        forall|i: int| count <= i < points.len() ==> #[trigger] points[i] > position,
    ensures
        segment_of(points, position) == count,
    decreases points.len(),
{
    if points.len() > 0 {
        let rest = points.drop_last();
        if count == points.len() {
            lemma_segment_of_split(rest, position, count - 1);
        } else {
            lemma_segment_of_split(rest, position, count);
        }
    }
}

/// Stepping one position forward enters the next segment exactly when the
/// new position is a point.
proof fn lemma_segment_step(points: Seq<usize>, position: int)
    requires
        forall|i: int, j: int| 0 <= i < j < points.len() ==> points[i] < points[j],
    ensures
        segment_of(points, position) == segment_of(points, position - 1) + if points.contains(
            position as usize,
        ) && 0 <= position <= usize::MAX {
            1nat
        } else {
            0nat
        },
    decreases points.len(),
{
    if points.len() > 0 {
        let rest = points.drop_last();
        lemma_segment_step(rest, position);
        let here = 0 <= position <= usize::MAX && points.contains(position as usize);
        let before = 0 <= position <= usize::MAX && rest.contains(position as usize);
        if points.last() == position {
            assert(points[points.len() - 1] == position as usize);
            assert(here);
            if before {
                let i = choose|i: int| 0 <= i < rest.len() && rest[i] == position as usize;
                assert(points[i] < points[points.len() - 1]);
            }
        } else {
            if here {
                let i = choose|i: int| 0 <= i < points.len() && points[i] == position as usize;
                assert(rest[i] == position as usize);
            }
            if before {
                let i = choose|i: int| 0 <= i < rest.len() && rest[i] == position as usize;
                assert(points[i] == position as usize);
            }
        }
    }
}

/// Every gene of a child is the gene one of the parents has at that position,
/// and the two children between them hold both parents' genes.
pub proof fn law_children_inherit(first: Seq<u8>, second: Seq<u8>, points: Seq<usize>)
    requires
        first.len() == second.len(),
    ensures
        crossed(first, second, points).0.len() == first.len(),
        crossed(first, second, points).1.len() == first.len(),
        forall|j: int|
            #![trigger crossed(first, second, points).0[j]]
            #![trigger crossed(first, second, points).1[j]]
            0 <= j < first.len() ==> {
                let children = crossed(first, second, points);
                ||| children.0[j] == first[j] && children.1[j] == second[j]
                ||| children.0[j] == second[j] && children.1[j] == first[j]
            },
{
}

/// Without points nothing is cut: the whole genotype is one segment with an
/// even number, so the children are the parents exchanged.
pub proof fn law_no_points_exchange_all(first: Seq<u8>, second: Seq<u8>)
    requires
        first.len() == second.len(),
    ensures
        crossed(first, second, Seq::empty()).0 == second,
        crossed(first, second, Seq::empty()).1 == first,
{
    assert(crossed(first, second, Seq::empty()).0 =~= second);
    assert(crossed(first, second, Seq::empty()).1 =~= first);
}

/// Where the parents differ at every position, the children switch between
/// their parents exactly once per crossover point: once for one-point
/// crossover, twice for two-point crossover.
pub proof fn law_one_switch_per_point(first: Seq<u8>, second: Seq<u8>, points: Seq<usize>)
    requires
        first.len() == second.len(),
        valid_points(points, first.len()),
        forall|j: int| 0 <= j < first.len() ==> first[j] != second[j],
    ensures
        switches((first, second), crossed(first, second, points), first.len()) == points.len(),
{
    if first.len() == 0 {
        assert(points.len() == 0) by {
            if points.len() > 0 {
                assert(1 <= points[0] < 0);
            }
        }
    } else {
        lemma_switches_count(first, second, points, first.len());
        lemma_segment_of_split(points, first.len() - 1, points.len() as int);
    }
}

/// Over the first `length` positions the children have switched as often as
/// there are points among those positions.
proof fn lemma_switches_count(first: Seq<u8>, second: Seq<u8>, points: Seq<usize>, length: nat)
    requires
        first.len() == second.len(),
        1 <= length <= first.len(),
        valid_points(points, first.len()),
        forall|j: int| 0 <= j < first.len() ==> first[j] != second[j],
    ensures
        switches((first, second), crossed(first, second, points), length) == segment_of(
            points,
            length - 1,
        ),
    decreases length,
{
    let parents = (first, second);
    let children = crossed(first, second, points);
    if length == 1 {
        lemma_segment_of_split(points, 0, 0);
    } else {
        lemma_switches_count(first, second, points, (length - 1) as nat);
        lemma_segment_step(points, length - 1);
        assert(kept(parents, children, length - 1) == !exchanged(points, length - 1));
        assert(kept(parents, children, length - 2) == !exchanged(points, length - 2));
    }
}

/// Recombines two parents of equal length at the given points.
pub fn cross(first: &Vec<u8>, second: &Vec<u8>, points: &Vec<usize>) -> (children: (Vec<u8>, Vec<u8>))
    requires
        first@.len() == second@.len(),
        valid_points(points@, first@.len()),
    ensures
        (children.0@, children.1@) == crossed(first@, second@, points@),
{
    let length = first.len();
    let mut one: Vec<u8> = Vec::new();
    let mut other: Vec<u8> = Vec::new();
    let mut segment: usize = 0;
    let mut position: usize = 0;
    while position < length
        invariant
            length == first@.len(),
            length == second@.len(),
            valid_points(points@, first@.len()),
            position <= length,
            segment <= points@.len(),
            forall|i: int| 0 <= i < segment ==> #[trigger] points@[i] < position,
            forall|i: int| segment <= i < points@.len() ==> #[trigger] points@[i] >= position,
            one@.len() == position,
            other@.len() == position,
            forall|j: int| 0 <= j < position ==> one@[j] == crossed(first@, second@, points@).0[j],
            forall|j: int| 0 <= j < position ==> other@[j] == crossed(first@, second@, points@).1[j],
        decreases length - position,
    {
        if segment < points.len() && points[segment] == position {
            segment = segment + 1;
        }
        proof {
            assert forall|i: int| segment <= i < points@.len() implies #[trigger] points@[i]
                > position by {
                if i > segment {
                    assert(points@[segment as int] < points@[i]);
                }
            }
            lemma_segment_of_split(points@, position as int, segment as int);
        }
        if segment % 2 == 0 {
            one.push(second[position]);
            other.push(first[position]);
        } else {
            one.push(first[position]);
            other.push(second[position]);
        }
        position = position + 1;
    }
    proof {
        assert(one@ =~= crossed(first@, second@, points@).0);
        assert(other@ =~= crossed(first@, second@, points@).1);
    }
    (one, other)
}

/// Puts distinct crossover points in increasing order.
pub fn sort_points(points: &Vec<usize>) -> (sorted: Vec<usize>)
    requires
        forall|i: int, j: int| 0 <= i < j < points@.len() ==> points@[i] != points@[j],
    ensures
        sorted@.len() == points@.len(),
        forall|i: int, j: int| 0 <= i < j < sorted@.len() ==> sorted@[i] < sorted@[j],
        forall|value: usize| sorted@.contains(value) <==> points@.contains(value),
{
    let mut sorted: Vec<usize> = Vec::new();
    let mut taken: usize = 0;
    while taken < points.len()
        invariant
            taken <= points@.len(),
            forall|i: int, j: int| 0 <= i < j < points@.len() ==> points@[i] != points@[j],
            sorted@.len() == taken,
            forall|i: int, j: int| 0 <= i < j < sorted@.len() ==> sorted@[i] < sorted@[j],
            forall|value: usize|
                sorted@.contains(value) <==> points@.subrange(0, taken as int).contains(value),
        decreases points@.len() - taken,
    {
        let next = points[taken];
        let mut place: usize = 0;
        while place < sorted.len() && sorted[place] < next
            invariant
                place <= sorted@.len(),
                forall|i: int| 0 <= i < place ==> #[trigger] sorted@[i] < next,
            decreases sorted@.len() - place,
        {
            place = place + 1;
        }
        let ghost before = sorted@;
        proof {
            assert(!before.contains(next)) by {
                if before.contains(next) {
                    let seen = points@.subrange(0, taken as int);
                    assert(seen.contains(next));
                    let i = choose|i: int| 0 <= i < seen.len() && seen[i] == next;
                    assert(points@[i] == points@[taken as int]);
                }
            }
            assert forall|i: int| place <= i < before.len() implies #[trigger] before[i] > next by {
                assert(before.contains(before[i]));
                assert(before[place as int] <= before[i]);
            }
        }
        sorted.insert(place, next);
        proof {
            let seen = points@.subrange(0, taken as int);
            let more = points@.subrange(0, taken as int + 1);
            assert(sorted@ == before.insert(place as int, next));
            assert forall|value: usize| sorted@.contains(value) <==> more.contains(value) by {
                if sorted@.contains(value) {
                    let i = choose|i: int| 0 <= i < sorted@.len() && sorted@[i] == value;
                    if i == place {
                        assert(more[taken as int] == value);
                    } else {
                        let k = if i < place { i } else { i - 1 };
                        assert(before[k] == value);
                        assert(before.contains(value));
                        assert(seen.contains(value));
                        let m = choose|m: int| 0 <= m < seen.len() && seen[m] == value;
                        assert(more[m] == value);
                    }
                }
                if more.contains(value) {
                    let m = choose|m: int| 0 <= m < more.len() && more[m] == value;
                    if m == taken {
                        assert(sorted@[place as int] == value);
                    } else {
                        assert(seen[m] == value);
                        assert(seen.contains(value));
                        assert(before.contains(value));
                        let k = choose|k: int| 0 <= k < before.len() && before[k] == value;
                        let i = if k < place { k } else { k + 1 };
                        assert(sorted@[i] == value);
                    }
                }
            }
        }
        taken = taken + 1;
    }
    proof {
        assert(points@.subrange(0, taken as int) =~= points@);
    }
    sorted
}

} // verus!
