//! The best genotypes observed over a run.

use crate::genotype::Genotype;
use vstd::prelude::*;

verus! {

/// The record of a run: the genotypes that were, when observed, better than
/// every genotype observed before, oldest first. Only the latest `keep` of
/// them are held.
pub struct Champions {
    /// How many genotypes the record holds at most.
    pub keep: usize,
    /// The record holders, each better than the one before.
    pub seen: Vec<Genotype>,
}

impl Champions {
    /// Whether the record is in order: it holds no more than it may, and
    /// each holder ranks above the one before.
    pub open spec fn well_formed(self) -> bool {
        &&& self.keep > 0
        &&& self.seen@.len() <= self.keep
        &&& forall|i: int, j: int|
            0 <= i < j < self.seen@.len() ==> self.seen@[i].fitness.rank() < self.seen@[j].fitness.rank()
    }

    /// The rank of the best genotype observed so far; below every rank if
    /// nothing was observed yet.
    pub open spec fn best_rank(self) -> int {
        if self.seen@.len() == 0 {
            -2
        } else {
            self.seen@.last().fitness.rank()
        }
    }

    /// An empty record that holds up to `keep` genotypes.
    pub fn new(keep: usize) -> (record: Champions)
        requires
            keep > 0,
        ensures
            record.well_formed(),
            record.keep == keep,
            record.seen@.len() == 0,
    {
        Champions { keep, seen: Vec::new() }
    }

    /// Shows the record a genotype. If it is better than everything observed
    /// before, a copy of it becomes the latest record holder, in place of the
    /// oldest one if the record is full. Returns whether that happened.
    ///
    /// The best rank on record never falls: afterwards it is the larger of
    /// what it was and the candidate's rank.
    pub fn observe(&mut self, candidate: &Genotype) -> (improved: bool)
        requires
            old(self).well_formed(),
        ensures
            final(self).well_formed(),
            final(self).keep == old(self).keep,
            improved == (candidate.fitness.rank() > old(self).best_rank()),
            !improved ==> final(self).seen@ == old(self).seen@,
            improved ==> final(self).seen@.len() > 0 && final(self).seen@.last()@ == candidate@,
            improved ==> final(self).seen@.drop_last() == if old(self).seen@.len() == old(self).keep {
                old(self).seen@.subrange(1, old(self).seen@.len() as int)
            } else {
                old(self).seen@
            },
            final(self).best_rank() >= old(self).best_rank(),
            final(self).best_rank() == if improved {
                candidate.fitness.rank()
            } else {
                old(self).best_rank()
            },
    {
        let count = self.seen.len();
        if count > 0 && !candidate.fitness.outranks(&self.seen[count - 1].fitness) {
            return false;
        }
        if count == self.keep {
            self.seen.remove(0);
        }
        let ghost kept = self.seen@;
        self.seen.push(candidate.clone());
        proof {
            assert(self.seen@.drop_last() =~= kept);
            if count == old(self).keep {
                assert(kept =~= old(self).seen@.subrange(1, count as int));
            }
        }
        true
    }

    /// The best genotype observed so far, or `None` if nothing was observed.
    pub fn best(&self) -> (holder: Option<&Genotype>)
        ensures
            holder is Some <==> self.seen@.len() > 0,
            holder matches Some(g) ==> *g == self.seen@.last(),
    {
        if self.seen.len() == 0 {
            None
        } else {
            Some(&self.seen[self.seen.len() - 1])
        }
    }
}

} // verus!
