//! The quality of a candidate solution.

use std::cmp::Ordering;
use crate::text::decimal;
use crate::text::fixed;
use crate::text::write_decimal;
use crate::text::write_fixed;
use vstd::prelude::*;
use vstd::std_specs::cmp::PartialEqSpecImpl;
use vstd::std_specs::cmp::PartialOrdSpecImpl;
use vstd::string::StringExecFns;

verus! {

/// The score that stands for `1.0`: scores are fixed-point numbers counted in
/// millionths.
pub const FITNESS_UNIT: u64 = 1_000_000;

/// How good a genotype is: a score, or `Invalid` when the genotype breaks a
/// constraint of its problem.
#[derive(Clone, Copy, Debug)]
pub enum Fitness {
    /// A score in millionths; larger is better.
    Valid(u64),
    /// A constraint is violated; such a genotype gets no reproductive weight.
    Invalid,
}

impl Fitness {
    /// The key fitness values are ordered by: the score of a valid fitness,
    /// and `-1` for `Invalid`, which therefore ranks below every valid one.
    pub open spec fn rank(self) -> int {
        match self {
            Fitness::Valid(score) => score as int,
            Fitness::Invalid => -1,
        }
    }

    /// The share a fitness contributes to fitness-proportional sums: its score
    /// if valid, nothing otherwise.
    pub open spec fn weight(self) -> nat {
        match self {
            Fitness::Valid(score) => score as nat,
            Fitness::Invalid => 0,
        }
    }

    /// Whether this is a `Valid` fitness.
    pub fn is_valid(&self) -> (valid: bool)
        ensures
            valid == (*self is Valid),
    {
        match self {
            Fitness::Valid(_) => true,
            Fitness::Invalid => false,
        }
    }

    /// The score of a valid fitness.
    pub fn unwrap(&self) -> (score: u64)
        requires
            *self is Valid,
        ensures
            *self == Fitness::Valid(score),
    {
        match self {
            Fitness::Valid(score) => *score,
            Fitness::Invalid => 0,
        }
    }

    /// The score if valid, zero otherwise.
    pub fn score_or_zero(&self) -> (score: u64)
        ensures
            score == self.weight(),
    {
        match self {
            Fitness::Valid(score) => *score,
            Fitness::Invalid => 0,
        }
    }

    /// The fitness as it is reported: the score as a decimal number of
    /// units with six places after the point, or `Invalid!`.
    pub open spec fn spec_label(self) -> Seq<char> {
        match self {
            Fitness::Valid(score) => decimal(score as nat / FITNESS_UNIT as nat) + "."@ + fixed(
                score as nat % FITNESS_UNIT as nat,
                6,
            ),
            Fitness::Invalid => "Invalid!"@,
        }
    }

    /// The fitness as it is reported: the score as a decimal number of
    /// units with six places after the point, or `Invalid!`.
    pub fn label(&self) -> (text: String)
        ensures
            text@ == self.spec_label(),
    {
        match self {
            Fitness::Valid(score) => {
                let mut text = String::new();
                write_decimal(&mut text, *score / FITNESS_UNIT);
                text.append(".");
                write_fixed(&mut text, *score % FITNESS_UNIT, 6);
                proof {
                    assert(text@ =~= self.spec_label());
                }
                text
            },
            Fitness::Invalid => "Invalid!".to_owned(),
        }
    }

    /// Whether `self` is strictly better than `other`.
    pub fn outranks(&self, other: &Fitness) -> (better: bool)
        ensures
            better == (self.rank() > other.rank()),
    {
        match (self, other) {
            (Fitness::Valid(a), Fitness::Valid(b)) => *a > *b,
            (Fitness::Valid(_), Fitness::Invalid) => true,
            (Fitness::Invalid, _) => false,
        }
    }
}

impl PartialEq for Fitness {
    fn eq(&self, other: &Fitness) -> (same: bool) {
        match (self, other) {
            (Fitness::Valid(a), Fitness::Valid(b)) => *a == *b,
            (Fitness::Invalid, Fitness::Invalid) => true,
            _ => false,
        }
    }
}

impl PartialEqSpecImpl for Fitness {
    open spec fn obeys_eq_spec() -> bool {
        true
    }

    open spec fn eq_spec(&self, other: &Fitness) -> bool {
        *self == *other
    }
}

impl PartialOrd for Fitness {
    fn partial_cmp(&self, other: &Fitness) -> (order: Option<Ordering>) {
        match (self, other) {
            (Fitness::Valid(a), Fitness::Valid(b)) => {
                if *a < *b {
                    Some(Ordering::Less)
                } else if *a > *b {
                    Some(Ordering::Greater)
                } else {
                    Some(Ordering::Equal)
                }
            },
            (Fitness::Valid(_), Fitness::Invalid) => Some(Ordering::Greater),
            (Fitness::Invalid, Fitness::Valid(_)) => Some(Ordering::Less),
            (Fitness::Invalid, Fitness::Invalid) => Some(Ordering::Equal),
        }
    }
}

impl PartialOrdSpecImpl for Fitness {
    open spec fn obeys_partial_cmp_spec() -> bool {
        true
    }

    open spec fn partial_cmp_spec(&self, other: &Fitness) -> Option<Ordering> {
        if self.rank() < other.rank() {
            Some(Ordering::Less)
        } else if self.rank() > other.rank() {
            Some(Ordering::Greater)
        } else {
            Some(Ordering::Equal)
        }
    }
}

} // verus!
