//! The strategies a run is configured with.

use vstd::prelude::*;

verus! {

/// How many crossover points recombination uses.
#[derive(Copy, Clone, Debug, PartialEq, Eq, Structural)]
pub enum SexMethod {
    /// One crossover point.
    One,
    /// Two crossover points.
    Two,
    /// A random number of crossover points, at least three.
    Uniform,
}

/// How the mating pool is drawn from the population.
#[derive(Copy, Clone, Debug, PartialEq, Eq, Structural)]
pub enum SelectionMethod {
    /// Every genotype is equally likely, whatever its fitness.
    Equal,
    /// Fitness-proportionate sampling with replacement.
    Replacement,
    /// Remainder stochastic sampling.
    Remainder,
}

/// The optimisation problems the engine knows by name.
#[derive(Copy, Clone, Debug, PartialEq, Eq, Structural)]
pub enum ProblemType {
    /// Packing a knapsack.
    Knapsack,
    /// Searching for a trading strategy.
    Stocks,
}

impl SexMethod {
    /// The name the method is reported under.
    pub open spec fn spec_label(self) -> Seq<char> {
        match self {
            SexMethod::One => "one"@,
            SexMethod::Two => "two"@,
            SexMethod::Uniform => "uniform"@,
        }
    }

    /// The name the method is reported under.
    pub fn label(&self) -> (name: String)
        ensures
            name@ == self.spec_label(),
    {
        match self {
            SexMethod::One => "one".to_owned(),
            SexMethod::Two => "two".to_owned(),
            SexMethod::Uniform => "uniform".to_owned(),
        }
    }
}

impl SelectionMethod {
    /// The name the method is reported under.
    pub open spec fn spec_label(self) -> Seq<char> {
        match self {
            SelectionMethod::Equal => "equal"@,
            SelectionMethod::Replacement => "stochastic sampling with replacement"@,
            SelectionMethod::Remainder => "remainder stochastic sampling"@,
        }
    }

    /// The name the method is reported under.
    pub fn label(&self) -> (name: String)
        ensures
            name@ == self.spec_label(),
    {
        match self {
            SelectionMethod::Equal => "equal".to_owned(),
            SelectionMethod::Replacement => "stochastic sampling with replacement".to_owned(),
            SelectionMethod::Remainder => "remainder stochastic sampling".to_owned(),
        }
    }
}

impl ProblemType {
    /// The name the problem is reported under.
    pub open spec fn spec_label(self) -> Seq<char> {
        match self {
            ProblemType::Knapsack => "knapsack"@,
            ProblemType::Stocks => "stocks"@,
        }
    }

    /// The name the problem is reported under.
    pub fn label(&self) -> (name: String)
        ensures
            name@ == self.spec_label(),
    {
        match self {
            ProblemType::Knapsack => "knapsack".to_owned(),
            ProblemType::Stocks => "stocks".to_owned(),
        }
    }
}

} // verus!
