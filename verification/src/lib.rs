//! A generational genetic algorithm over fixed-length byte genotypes.
//!
//! A population of genotypes is evolved towards higher fitness: a mating pool
//! is selected from it, pairs of mates are recombined and mutated, and their
//! children make up the next population. What a genotype means and how good
//! it is comes from a [`problem::Problem`].
//!
//! Scores are fixed-point integers and probabilities are exact ratios, so that
//! every operator can be stated and proved over the integers. Randomness comes
//! from a generator that the caller passes in.

pub mod champions;
pub mod crossover;
pub mod crowding;
pub mod engine;
pub mod fitness;
pub mod generation;
pub mod genotype;
pub mod knapsack;
pub mod listing;
pub mod methods;
pub mod mutation;
pub mod problem;
pub mod random;
pub mod ranking;
pub mod rate;
pub mod reproduction;
pub mod selection;
pub mod stocks;
pub mod text;

pub use crate::champions::Champions;
pub use crate::engine::generate_generation;
pub use crate::fitness::Fitness;
pub use crate::generation::generate_genitors;
pub use crate::generation::Args;
pub use crate::generation::Generation;
pub use crate::genotype::Genotype;
pub use crate::knapsack::Knapsack;
pub use crate::methods::ProblemType;
pub use crate::methods::SelectionMethod;
pub use crate::methods::SexMethod;
pub use crate::mutation::mutate;
pub use crate::problem::Problem;
pub use crate::rate::Rate;
pub use crate::reproduction::reproduce;
pub use crate::selection::select_genitors;
pub use crate::stocks::Average;
pub use crate::stocks::Market;
