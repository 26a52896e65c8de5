//! Probabilities as exact ratios.

use crate::random::ratio;
use rand::rngs::StdRng;
use vstd::prelude::*;

verus! {

/// A probability: `numerator` chances in `denominator`.
#[derive(Clone, Copy, Debug)]
pub struct Rate {
    numerator: u32,
    denominator: u32,
}

impl Rate {
    #[verifier::type_invariant]
    closed spec fn well_formed(self) -> bool {
        0 < self.denominator && self.numerator <= self.denominator
    }

    /// The number of chances.
    pub closed spec fn chances(self) -> nat {
        self.numerator as nat
    }

    /// The number of chances a certain event has.
    pub closed spec fn out_of(self) -> nat {
        self.denominator as nat
    }

    /// Whether the event never happens.
    pub open spec fn is_never(self) -> bool {
        self.chances() == 0
    }

    /// Whether the event always happens.
    pub open spec fn is_always(self) -> bool {
        self.chances() == self.out_of()
    }

    /// The probability `numerator / denominator`, or `None` if that is not a
    /// probability: the denominator is zero or the ratio exceeds one.
    pub fn new(numerator: u32, denominator: u32) -> (rate: Option<Rate>)
        ensures
            rate is Some <==> 0 < denominator && numerator <= denominator,
            rate matches Some(r) ==> r.chances() == numerator && r.out_of() == denominator,
    {
        if denominator == 0 || numerator > denominator {
            None
        } else {
            Some(Rate { numerator, denominator })
        }
    }

    /// The mutation rate a crowded mating pool is bred at: one in five.
    pub closed spec fn raised() -> Rate {
        Rate { numerator: 1, denominator: 5 }
    }

    /// The mutation rate a crowded mating pool is bred at: one in five.
    pub fn elevated() -> (rate: Rate)
        ensures
            rate == Rate::raised(),
            rate.chances() == 1,
            rate.out_of() == 5,
    {
        Rate { numerator: 1, denominator: 5 }
    }

    /// Probability zero.
    pub fn never() -> (rate: Rate)
        ensures
            rate.is_never(),
            rate.out_of() == 1,
    {
        Rate { numerator: 0, denominator: 1 }
    }

    /// Probability one.
    pub fn always() -> (rate: Rate)
        ensures
            rate.is_always(),
            rate.out_of() == 1,
    {
        Rate { numerator: 1, denominator: 1 }
    }

    /// The number of chances.
    pub fn numerator(&self) -> (n: u32)
        ensures
            n == self.chances(),
            n <= self.out_of(),
    {
        proof {
            use_type_invariant(self);
        }
        self.numerator
    }

    /// The number of chances a certain event has.
    pub fn denominator(&self) -> (d: u32)
        ensures
            d == self.out_of(),
            d > 0,
    {
        proof {
            use_type_invariant(self);
        }
        self.denominator
    }

    /// Whether the probability is zero.
    pub fn is_zero(&self) -> (zero: bool)
        ensures
            zero == self.is_never(),
            zero ==> !self.is_always(),
    {
        proof {
            use_type_invariant(self);
        }
        self.numerator == 0
    }

    /// Whether the probability is one.
    pub fn is_one(&self) -> (one: bool)
        ensures
            one == self.is_always(),
            one ==> !self.is_never(),
    {
        proof {
            use_type_invariant(self);
        }
        self.numerator == self.denominator
    }

    /// Decides one event of this probability. An event of probability zero
    /// never happens and one of probability one always does.
    pub fn happens(&self, rng: &mut StdRng) -> (hit: bool)
        ensures
            self.is_never() ==> !hit,
            self.is_always() ==> hit,
    {
        proof {
            use_type_invariant(self);
        }
        ratio(rng, self.numerator, self.denominator)
    }
}

} // verus!
