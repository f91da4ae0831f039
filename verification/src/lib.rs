//! An evolutionary engine for procedurally generated soft-body creatures.
//!
//! A creature is a graph of mass nodes joined by actuated muscles. The engine
//! evolves a population of creature descriptions (chromosomes) toward higher
//! fitness through crossover, mutation, structural repair, and truncation
//! selection, with an optional species-based variant. All scalar quantities
//! (positions, lengths, chances, fitness) are fixed-point values counted in
//! thousandths of a unit, so that every computation is exact integer
//! arithmetic.

pub mod config;
pub mod operations;
pub mod node_phenotype;
pub mod muscle_phenotype;
pub mod graph;
pub mod creature_chromosome;
pub mod ranking;
pub mod stats;
pub mod runner;
pub mod algorithm;
pub mod species_based_algorithm;
pub mod engine;
mod rng;

pub use config::Config;
