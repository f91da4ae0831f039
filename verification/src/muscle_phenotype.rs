//! The characteristics of a single muscle: actuation timing, contracted and
//! extended lengths, strength, and the pair of nodes it pulls together,
//! with their genetic operators.

use vstd::prelude::*;
use crate::config::{
    clamp_i64, clamp_spec, perturbed, scaled_chance, Config, MAX_MAGNITUDE, UNIT,
    VALUE_PERTURBATION,
};
use crate::operations::{Correctable, Crossable, Mutable, RandomCreatable};
use crate::rng::{random_bool, random_in_range, random_index};

verus! {

/// How many node slots a freshly randomized muscle may point at before the
/// owning chromosome re-targets it during repair.
pub const RANDOM_INDEX_RANGE: usize = 20;

/// Represents the characteristics of a muscle.
#[derive(Clone, Copy, Debug, PartialEq, Eq, Structural)]
pub struct MusclePhenotype {
    /// Fraction of the creature's internal clock the muscle spends
    /// contracting, in thousandths; the rest of the time it extends.
    pub contracted_time: i64,
    /// Maximum length the muscle can reach, in thousandths.
    pub extended_length: i64,
    /// Minimum length the muscle can reach, in thousandths.
    pub contracted_length: i64,
    /// The strength with which it pulls its nodes together or apart, in
    /// thousandths.
    pub strength: i64,
    /// Index of the first node this muscle pulls, into the owning
    /// chromosome's node list.
    pub first_node: usize,
    /// Index of the second node this muscle pulls.
    pub second_node: usize,
}

impl MusclePhenotype {
    /// Every scalar field lies within its configured range and the
    /// contracted length does not exceed the extended length. Whether the
    /// node indices are valid is a property of the owning chromosome.
    pub open spec fn in_range(self, config: Config) -> bool {
        &&& config.min_contracted_time <= self.contracted_time <= config.max_contracted_time
        &&& config.min_extended_length <= self.extended_length <= config.max_extended_length
        &&& config.min_contracted_length <= self.contracted_length <= config.max_contracted_length
        &&& self.contracted_length <= self.extended_length
        &&& config.min_strength <= self.strength <= config.max_strength
    }
}

impl Default for MusclePhenotype {
    /// A canonical muscle between the first two node slots, in range under
    /// the default configuration.
    fn default() -> (m: MusclePhenotype)
        ensures
            m == (MusclePhenotype {
                contracted_time: 100,
                extended_length: 80,
                contracted_length: 80,
                strength: 500,
                first_node: 0,
                second_node: 1,
            }),
            m.in_range(Config::default_spec()),
    {
        MusclePhenotype {
            contracted_time: 100,
            extended_length: 80,
            contracted_length: 80,
            strength: 500,
            first_node: 0,
            second_node: 1,
        }
    }
}

impl Correctable for MusclePhenotype {
    open spec fn correct_req(&self) -> bool {
        true
    }

    /// Clamps every scalar field to its range and lowers the contracted
    /// length onto the extended length where it overshoots; a muscle already
    /// in range is left untouched. Node indices are repaired by the owning
    /// chromosome, not here.
    fn correct(&mut self, config: &Config)
        ensures
            final(self).contracted_time == clamp_spec(
                old(self).contracted_time as int,
                config.min_contracted_time as int,
                config.max_contracted_time as int,
            ),
            final(self).extended_length == clamp_spec(
                old(self).extended_length as int,
                config.min_extended_length as int,
                config.max_extended_length as int,
            ),
            final(self).contracted_length == vstd::math::min(
                clamp_spec(
                    old(self).contracted_length as int,
                    config.min_contracted_length as int,
                    config.max_contracted_length as int,
                ),
                final(self).extended_length as int,
            ),
            final(self).strength == clamp_spec(
                old(self).strength as int,
                config.min_strength as int,
                config.max_strength as int,
            ),
            final(self).first_node == old(self).first_node,
            final(self).second_node == old(self).second_node,
            final(self).in_range(*config),
            old(self).in_range(*config) ==> *final(self) == *old(self),
    {
        self.contracted_time = clamp_i64(
            self.contracted_time,
            config.min_contracted_time,
            config.max_contracted_time,
        );
        self.extended_length = clamp_i64(
            self.extended_length,
            config.min_extended_length,
            config.max_extended_length,
        );
        self.contracted_length = clamp_i64(
            self.contracted_length,
            config.min_contracted_length,
            config.max_contracted_length,
        );
        if self.contracted_length > self.extended_length {
            self.contracted_length = self.extended_length;
        }
        self.strength = clamp_i64(self.strength, config.min_strength, config.max_strength);
    }

    fn is_correct(&self, config: &Config) -> (r: bool)
        ensures
            r == self.in_range(*config),
    {
        config.min_contracted_time <= self.contracted_time
            && self.contracted_time <= config.max_contracted_time
            && config.min_extended_length <= self.extended_length
            && self.extended_length <= config.max_extended_length
            && config.min_contracted_length <= self.contracted_length
            && self.contracted_length <= config.max_contracted_length
            && self.contracted_length <= self.extended_length
            && config.min_strength <= self.strength
            && self.strength <= config.max_strength
    }
}

impl Crossable for MusclePhenotype {
    open spec fn cross_req(&self, other: &Self, config: &Config) -> bool {
        true
    }

    /// Each field independently takes one parent's value, by a fair coin.
    /// Mixing fields of two in-range parents can break the ordering of the
    /// two lengths, so the child is corrected by its owner afterwards.
    fn cross(&self, other: &Self, config: &Config, chance: i64) -> (child: Self)
        ensures
            child.contracted_time == self.contracted_time
                || child.contracted_time == other.contracted_time,
            child.extended_length == self.extended_length
                || child.extended_length == other.extended_length,
            child.contracted_length == self.contracted_length
                || child.contracted_length == other.contracted_length,
            child.strength == self.strength || child.strength == other.strength,
            (child.first_node == self.first_node && child.second_node == self.second_node)
                || (child.first_node == other.first_node
                    && child.second_node == other.second_node),
    {
        MusclePhenotype {
            contracted_time: if random_bool() {
                self.contracted_time
            } else {
                other.contracted_time
            },
            extended_length: if random_bool() {
                self.extended_length
            } else {
                other.extended_length
            },
            contracted_length: if random_bool() {
                self.contracted_length
            } else {
                other.contracted_length
            },
            strength: if random_bool() {
                self.strength
            } else {
                other.strength
            },
            ..(if random_bool() {
                *self
            } else {
                *other
            })
        }
    }
}

impl Mutable for MusclePhenotype {
    open spec fn mutate_req(&self) -> bool {
        true
    }

    /// Perturbs each scalar field behind its own coin and clamps it back
    /// into range, keeping the contracted length below the extended length
    /// where both are touched. An untouched field keeps its value exactly;
    /// a touched one is the bounded input moved by a delta within the
    /// configured perturbation, then clamped. The node indices stay as they
    /// are.
    fn mutate(&self, config: &Config, chance: i64) -> (m: Self)
        ensures
            m.first_node == self.first_node,
            m.second_node == self.second_node,
            m.contracted_time == self.contracted_time || exists|d: i64|
                -VALUE_PERTURBATION <= d <= VALUE_PERTURBATION && m.contracted_time
                    == #[trigger] perturbed(
                    self.contracted_time,
                    d,
                    config.min_contracted_time as int,
                    config.max_contracted_time as int,
                ),
            m.extended_length == self.extended_length || exists|d: i64|
                -VALUE_PERTURBATION <= d <= VALUE_PERTURBATION && m.extended_length
                    == #[trigger] perturbed(
                    self.extended_length,
                    d,
                    config.min_extended_length as int,
                    config.max_extended_length as int,
                ),
            m.contracted_length == self.contracted_length || exists|d: i64|
                -VALUE_PERTURBATION <= d <= VALUE_PERTURBATION && m.contracted_length
                    == vstd::math::min(
                    #[trigger] perturbed(
                        self.contracted_length,
                        d,
                        config.min_contracted_length as int,
                        config.max_contracted_length as int,
                    ),
                    m.extended_length as int,
                ),
            m.strength == self.strength || exists|d: i64|
                -VALUE_PERTURBATION <= d <= VALUE_PERTURBATION && m.strength
                    == #[trigger] perturbed(
                    self.strength,
                    d,
                    config.min_strength as int,
                    config.max_strength as int,
                ),
    {
        let mut contracted_time = self.contracted_time;
        let mut extended_length = self.extended_length;
        let mut contracted_length = self.contracted_length;
        let mut strength = self.strength;

        let value_threshold = scaled_chance(chance, config.single_value_mutation_chance_modifier);
        let ghost mut d_time: i64 = 0;
        let ghost mut d_extended: i64 = 0;
        let ghost mut d_contracted: i64 = 0;
        let ghost mut d_strength: i64 = 0;

        if random_in_range(0, UNIT) > value_threshold {
            let delta = random_in_range(-VALUE_PERTURBATION, VALUE_PERTURBATION);
            contracted_time = clamp_i64(
                clamp_i64(contracted_time, -MAX_MAGNITUDE, MAX_MAGNITUDE) + delta,
                config.min_contracted_time,
                config.max_contracted_time,
            );
            proof {
                d_time = delta;
            }
        }
        if random_in_range(0, UNIT) > value_threshold {
            let delta = random_in_range(-VALUE_PERTURBATION, VALUE_PERTURBATION);
            extended_length = clamp_i64(
                clamp_i64(extended_length, -MAX_MAGNITUDE, MAX_MAGNITUDE) + delta,
                config.min_extended_length,
                config.max_extended_length,
            );
            proof {
                d_extended = delta;
            }
        }
        if random_in_range(0, UNIT) > value_threshold {
            let delta = random_in_range(-VALUE_PERTURBATION, VALUE_PERTURBATION);
            contracted_length = clamp_i64(
                clamp_i64(contracted_length, -MAX_MAGNITUDE, MAX_MAGNITUDE) + delta,
                config.min_contracted_length,
                config.max_contracted_length,
            );
            if contracted_length > extended_length {
                contracted_length = extended_length;
            }
            proof {
                d_contracted = delta;
            }
        }
        if random_in_range(0, UNIT) > value_threshold {
            let delta = random_in_range(-VALUE_PERTURBATION, VALUE_PERTURBATION);
            strength = clamp_i64(
                clamp_i64(strength, -MAX_MAGNITUDE, MAX_MAGNITUDE) + delta,
                config.min_strength,
                config.max_strength,
            );
            proof {
                d_strength = delta;
            }
        }
        proof {
            assert(contracted_time == self.contracted_time || contracted_time == perturbed(
                self.contracted_time,
                d_time,
                config.min_contracted_time as int,
                config.max_contracted_time as int,
            ));
            assert(extended_length == self.extended_length || extended_length == perturbed(
                self.extended_length,
                d_extended,
                config.min_extended_length as int,
                config.max_extended_length as int,
            ));
            assert(contracted_length == self.contracted_length || contracted_length
                == vstd::math::min(
                perturbed(
                    self.contracted_length,
                    d_contracted,
                    config.min_contracted_length as int,
                    config.max_contracted_length as int,
                ),
                extended_length as int,
            ));
            assert(strength == self.strength || strength == perturbed(
                self.strength,
                d_strength,
                config.min_strength as int,
                config.max_strength as int,
            ));
        }
        MusclePhenotype {
            contracted_time,
            extended_length,
            contracted_length,
            strength,
            first_node: self.first_node,
            second_node: self.second_node,
        }
    }
}

impl RandomCreatable for MusclePhenotype {
    /// Draws every scalar field uniformly within its configured range, the
    /// contracted length below the freshly drawn extended length. The node
    /// indices are drawn from a fixed slot range and re-targeted by the
    /// owning chromosome's repair pass.
    fn random(config: &Config) -> (m: Self)
        ensures
            m.in_range(*config),
    {
        let extended_length = random_in_range(
            config.min_extended_length,
            config.max_extended_length,
        );
        let contracted_cap = if config.max_contracted_length < extended_length {
            config.max_contracted_length
        } else {
            extended_length
        };
        MusclePhenotype {
            contracted_time: random_in_range(
                config.min_contracted_time,
                config.max_contracted_time,
            ),
            extended_length,
            contracted_length: random_in_range(config.min_contracted_length, contracted_cap),
            strength: random_in_range(config.min_strength, config.max_strength),
            first_node: random_index(RANDOM_INDEX_RANGE),
            second_node: random_index(RANDOM_INDEX_RANGE),
        }
    }
}

} // verus!
