//! The capability set every evolvable value satisfies: crossover, mutation,
//! bounds-correction, random creation, fitness access, and classification.
//!
//! The trait methods carry the preconditions shared by every implementor;
//! each implementation states its own, stronger postconditions, so a caller
//! working on a concrete type sees the exact contract.

use vstd::prelude::*;
use crate::config::{Config, UNIT};

verus! {

/// Crossover: combine two parents into one child, field by field.
pub trait Crossable: Sized {
    /// What crossover asks of its two parents.
    spec fn cross_req(&self, other: &Self, config: &Config) -> bool;

    /// Cross two parents to create a child. A biased coin with probability
    /// governed by `chance` decides, per field, which parent the child takes
    /// the field from; interpolated fields average instead.
    fn cross(&self, other: &Self, config: &Config, chance: i64) -> (child: Self)
        requires
            config.wf(),
            0 <= chance <= UNIT,
            self.cross_req(other, config),
    ;
}

/// Mutation: perturb each field independently, inside its configured range.
pub trait Mutable: Sized {
    /// What mutation asks of the value it starts from.
    spec fn mutate_req(&self) -> bool;

    /// Produce a perturbed copy. `chance`, scaled by the per-field modifier
    /// from `config`, governs each field's coin.
    fn mutate(&self, config: &Config, chance: i64) -> (m: Self)
        requires
            config.wf(),
            0 <= chance <= UNIT,
            self.mutate_req(),
    ;
}

/// Bounds-correction: an idempotent repair pass and its range check.
pub trait Correctable {
    /// What the repair pass asks of the value it repairs.
    spec fn correct_req(&self) -> bool;

    /// Restore every invariant of the value in place.
    fn correct(&mut self, config: &Config)
        requires
            config.wf(),
            old(self).correct_req(),
    ;

    /// Whether every invariant of the value holds.
    fn is_correct(&self, config: &Config) -> bool
        requires
            config.wf(),
    ;
}

/// Random creation: every field drawn uniformly within its configured range.
pub trait RandomCreatable: Sized {
    /// Create a fresh random value.
    fn random(config: &Config) -> Self
        requires
            config.wf(),
    ;
}

/// Breeding: two parents produce two children by independent crossover.
pub trait Breedable: Sized + Crossable {
    /// Breed two parents to produce two children. Each child comes from its
    /// own crossover of the same two parents, so the children may coincide.
    fn breed(&self, other: &Self, config: &Config, chance: i64) -> (children: (Self, Self))
        requires
            config.wf(),
            0 <= chance <= UNIT,
            self.cross_req(other, config),
    ;
}

/// Access to the fitness score the external evaluator wrote.
pub trait Evaluatable {
    /// The recorded fitness, as the contracts see it.
    spec fn fitness_spec(&self) -> i64;

    /// Gets the fitness value recorded by evaluation.
    fn get_fitness(&self) -> (r: i64)
        ensures
            r == self.fitness_spec(),
    ;
}

/// Everything a population algorithm needs of its members.
pub trait Individual: Breedable + Mutable + Correctable + RandomCreatable + Evaluatable +
    Clone {
}

/// Classification into a species by a characteristic key.
pub trait Selective {
    /// The characteristic, as the contracts see it.
    spec fn characteristic_spec(&self) -> usize;

    /// Returns the characteristic that groups the individual into a species.
    fn characteristic(&self) -> (r: usize)
        ensures
            r == self.characteristic_spec(),
    ;
}

} // verus!
