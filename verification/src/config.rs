//! Engine configuration: bounds for every phenotype field, mutation
//! modifiers, and speciation thresholds.
//!
//! Every scalar is a fixed-point value in thousandths of a unit ([`UNIT`]
//! thousandths make one unit), so a friction coefficient of 0.3 is stored as
//! 300. Keeping the configuration an explicit value (rather than a global)
//! lets every operator state exactly which bounds it clamps to.

use vstd::prelude::*;

verus! {

/// Number of fixed-point thousandths in one unit: the scale of every scalar.
pub const UNIT: i64 = 1000;

/// Largest magnitude any configured bound may take, in thousandths.
/// Keeping bounds within this range keeps squared distances inside `i64`.
pub const MAX_MAGNITUDE: i64 = 1_000_000;

/// Lowest vertical position a node may take, in thousandths (0.04 units),
/// so that no creature starts below the ground plane.
pub const POSITION_FLOOR: i64 = 40;

/// Largest fitness value the engine accepts from the evaluator, in
/// thousandths. Bounding fitness keeps every statistic inside `i64`.
pub const FITNESS_LIMIT: i64 = 1_000_000_000;

/// Fewest nodes a chromosome may keep: structural mutation never removes a
/// node below this count, and repair needs two nodes to give a muscle two
/// distinct endpoints.
pub const MIN_NODES: usize = 2;

/// Fewest muscles a chromosome may keep under structural mutation.
pub const MIN_MUSCLES: usize = 1;

/// Half-width of the uniform perturbation applied to a node position during
/// mutation, in thousandths (0.1 units).
pub const POSITION_PERTURBATION: i64 = 100;

/// Half-width of the uniform perturbation applied to a single scalar gene
/// during mutation, in thousandths (0.5 units).
pub const VALUE_PERTURBATION: i64 = 500;

/// Bounds and modifiers that every genetic operator reads.
#[derive(Clone, Copy, Debug, PartialEq, Eq, Structural)]
pub struct Config {
    /// Lowest friction coefficient a node may take.
    pub min_friction: i64,
    /// Highest friction coefficient a node may take.
    pub max_friction: i64,
    /// Lowest strength a muscle may take.
    pub min_strength: i64,
    /// Highest strength a muscle may take.
    pub max_strength: i64,
    /// Lowest contracted length a muscle may take.
    pub min_contracted_length: i64,
    /// Highest contracted length a muscle may take.
    pub max_contracted_length: i64,
    /// Lowest extended length a muscle may take.
    pub min_extended_length: i64,
    /// Highest extended length a muscle may take; also bounds node positions.
    pub max_extended_length: i64,
    /// Lowest contracted-time fraction of the internal clock.
    pub min_contracted_time: i64,
    /// Highest contracted-time fraction of the internal clock.
    pub max_contracted_time: i64,
    /// Generations a species may go without improvement before it is bred
    /// against the global ranking instead of within itself.
    pub max_unchanged_generations: usize,
    /// How much a species' best fitness must rise to count as improvement.
    pub improvement_threshold: i64,
    /// Scales the mutation chance for removing a node or muscle.
    pub elimination_mutation_chance_modifier: i64,
    /// Scales the mutation chance for perturbing a node position.
    pub position_mutation_chance_modifier: i64,
    /// Scales the mutation chance for perturbing a single scalar gene.
    pub single_value_mutation_chance_modifier: i64,
    /// Scales the mutation chance for appending a new node or muscle.
    pub creation_mutation_chance_modifier: i64,
}

impl Config {
    /// A configuration is well formed when every min/max pair is ordered,
    /// every bound has a modest magnitude, and the contracted-time window
    /// stays inside the unit interval.
    pub open spec fn wf(self) -> bool {
        &&& 0 <= self.min_friction <= self.max_friction <= MAX_MAGNITUDE
        &&& 0 <= self.min_strength <= self.max_strength <= MAX_MAGNITUDE
        &&& 0 <= self.min_contracted_length <= self.max_contracted_length <= MAX_MAGNITUDE
        &&& 0 <= self.min_extended_length <= self.max_extended_length <= MAX_MAGNITUDE
        &&& self.min_contracted_length <= self.min_extended_length
        &&& POSITION_FLOOR <= self.max_extended_length
        &&& 0 <= self.min_contracted_time <= self.max_contracted_time <= UNIT
        &&& 0 <= self.improvement_threshold <= FITNESS_LIMIT
        &&& 0 <= self.elimination_mutation_chance_modifier <= 10 * UNIT
        &&& 0 <= self.position_mutation_chance_modifier <= 10 * UNIT
        &&& 0 <= self.single_value_mutation_chance_modifier <= 10 * UNIT
        &&& 0 <= self.creation_mutation_chance_modifier <= 10 * UNIT
    }

    /// The documented default configuration, used when no configuration
    /// source is available.
    pub open spec fn default_spec() -> Config {
        Config {
            min_friction: 300,
            max_friction: 1000,
            min_strength: 500,
            max_strength: 10_000,
            min_contracted_length: 80,
            max_contracted_length: 400,
            min_extended_length: 80,
            max_extended_length: 400,
            min_contracted_time: 100,
            max_contracted_time: 1000,
            max_unchanged_generations: 10,
            improvement_threshold: 50,
            elimination_mutation_chance_modifier: 500,
            position_mutation_chance_modifier: 1000,
            single_value_mutation_chance_modifier: 1000,
            creation_mutation_chance_modifier: 3000,
        }
    }

}

impl Default for Config {
    /// Falls back to the documented defaults.
    fn default() -> (c: Config)
        ensures
            c == Config::default_spec(),
            c.wf(),
    {
        Config {
            min_friction: 300,
            max_friction: 1000,
            min_strength: 500,
            max_strength: 10_000,
            min_contracted_length: 80,
            max_contracted_length: 400,
            min_extended_length: 80,
            max_extended_length: 400,
            min_contracted_time: 100,
            max_contracted_time: 1000,
            max_unchanged_generations: 10,
            improvement_threshold: 50,
            elimination_mutation_chance_modifier: 500,
            position_mutation_chance_modifier: 1000,
            single_value_mutation_chance_modifier: 1000,
            creation_mutation_chance_modifier: 3000,
        }
    }
}

/// Clamps `x` into the inclusive range `[lo, hi]`.
pub fn clamp_i64(x: i64, lo: i64, hi: i64) -> (r: i64)
    requires
        lo <= hi,
    ensures
        r == clamp_spec(x as int, lo as int, hi as int),
{
    if x < lo {
        lo
    } else if x > hi {
        hi
    } else {
        x
    }
}

/// The effective coin threshold for one mutation step: the mutation chance
/// scaled by a configured modifier, in thousandths.
pub fn scaled_chance(chance: i64, modifier: i64) -> (t: i64)
    requires
        0 <= chance <= UNIT,
        0 <= modifier <= 10 * UNIT,
    ensures
        t == chance * modifier / (UNIT as int),
        0 <= t <= 10 * UNIT,
{
    proof {
        assert(0 <= chance * modifier <= 10 * UNIT * UNIT) by (nonlinear_arith)
            requires
                0 <= chance <= UNIT,
                0 <= modifier <= 10 * UNIT,
        ;
    }
    chance * modifier / UNIT
}

/// What one gated mutation step yields: the value, bounded into the
/// representable magnitude, moved by the drawn delta, and clamped into its
/// configured range.
pub open spec fn perturbed(value: i64, delta: i64, lo: int, hi: int) -> int {
    clamp_spec(clamp_spec(value as int, -MAX_MAGNITUDE, MAX_MAGNITUDE as int) + delta, lo, hi)
}

/// What clamping yields: the nearest point of `[lo, hi]`.
pub open spec fn clamp_spec(x: int, lo: int, hi: int) -> int {
    if x < lo {
        lo
    } else if x > hi {
        hi
    } else {
        x
    }
}

} // verus!
