//! The characteristics of a single mass node: a 2D position and a friction
//! coefficient, with their genetic operators.

use vstd::prelude::*;
use crate::config::{
    clamp_i64, clamp_spec, perturbed, scaled_chance, Config, MAX_MAGNITUDE, POSITION_FLOOR,
    POSITION_PERTURBATION, UNIT, VALUE_PERTURBATION,
};
use crate::operations::{Correctable, Crossable, Mutable, RandomCreatable};
use crate::rng::random_in_range;

verus! {

/// Represents the characteristics of a node.
#[derive(Clone, Copy, Debug, PartialEq, Eq, Structural)]
pub struct NodePhenotype {
    /// Horizontal position of the node within the creature, in thousandths.
    pub position_x: i64,
    /// Vertical position of the node within the creature, in thousandths.
    pub position_y: i64,
    /// Resistance of the node to movement, in thousandths.
    pub friction: i64,
}

impl NodePhenotype {
    /// Every field lies within its configured range: the horizontal position
    /// within one maximum extended length of the origin, the vertical
    /// position between the floor and that same bound, and the friction
    /// between its configured extremes.
    pub open spec fn in_range(self, config: Config) -> bool {
        &&& -config.max_extended_length <= self.position_x <= config.max_extended_length
        &&& POSITION_FLOOR <= self.position_y <= config.max_extended_length
        &&& config.min_friction <= self.friction <= config.max_friction
    }

}

impl Default for NodePhenotype {
    /// A canonical node: at the origin, resting on the position floor, with
    /// the default minimum friction. In range under the default
    /// configuration.
    fn default() -> (n: NodePhenotype)
        ensures
            n == (NodePhenotype { position_x: 0, position_y: POSITION_FLOOR, friction: 300 }),
            n.in_range(Config::default_spec()),
    {
        NodePhenotype { position_x: 0, position_y: POSITION_FLOOR, friction: 300 }
    }
}

impl Correctable for NodePhenotype {
    open spec fn correct_req(&self) -> bool {
        true
    }

    /// Clamps every field to its configured range; a node already in range
    /// is left untouched.
    fn correct(&mut self, config: &Config)
        ensures
            final(self).position_x == clamp_spec(
                old(self).position_x as int,
                -config.max_extended_length,
                config.max_extended_length as int,
            ),
            final(self).position_y == clamp_spec(
                old(self).position_y as int,
                POSITION_FLOOR as int,
                config.max_extended_length as int,
            ),
            final(self).friction == clamp_spec(
                old(self).friction as int,
                config.min_friction as int,
                config.max_friction as int,
            ),
            final(self).in_range(*config),
            old(self).in_range(*config) ==> *final(self) == *old(self),
    {
        self.position_x = clamp_i64(
            self.position_x,
            -config.max_extended_length,
            config.max_extended_length,
        );
        self.position_y = clamp_i64(self.position_y, POSITION_FLOOR, config.max_extended_length);
        self.friction = clamp_i64(self.friction, config.min_friction, config.max_friction);
    }

    fn is_correct(&self, config: &Config) -> (r: bool)
        ensures
            r == self.in_range(*config),
    {
        -config.max_extended_length <= self.position_x
            && self.position_x <= config.max_extended_length
            && POSITION_FLOOR <= self.position_y
            && self.position_y <= config.max_extended_length
            && config.min_friction <= self.friction
            && self.friction <= config.max_friction
    }
}

impl Crossable for NodePhenotype {
    open spec fn cross_req(&self, other: &Self, config: &Config) -> bool {
        self.in_range(*config) && other.in_range(*config)
    }

    /// The child's position is the midpoint of the parents' positions,
    /// rounded down; its friction comes from one parent, chosen by a biased
    /// coin.
    fn cross(&self, other: &Self, config: &Config, chance: i64) -> (child: Self)
        ensures
            child.position_x == (self.position_x + other.position_x) / 2,
            child.position_y == (self.position_y + other.position_y) / 2,
            child.friction == self.friction || child.friction == other.friction,
            child.in_range(*config),
    {
        let friction = if random_in_range(0, UNIT) > chance {
            self.friction
        } else {
            other.friction
        };
        NodePhenotype {
            position_x: midpoint(self.position_x, other.position_x),
            position_y: midpoint(self.position_y, other.position_y),
            friction,
        }
    }
}

impl Mutable for NodePhenotype {
    open spec fn mutate_req(&self) -> bool {
        true
    }

    /// Perturbs the position and the friction, each behind its own coin
    /// (an untouched field draws a zero delta), and clamps every field back
    /// into range; the vertical position never drops below its floor. The
    /// result is exactly the bounded input moved by a delta within the
    /// configured perturbation, then clamped.
    fn mutate(&self, config: &Config, chance: i64) -> (m: Self)
        ensures
            m.in_range(*config),
            exists|dx: i64, dy: i64|
                {
                    &&& -POSITION_PERTURBATION <= dx <= POSITION_PERTURBATION
                    &&& -POSITION_PERTURBATION <= dy <= POSITION_PERTURBATION
                    &&& m.position_x == #[trigger] perturbed(
                        self.position_x,
                        dx,
                        -config.max_extended_length,
                        config.max_extended_length as int,
                    )
                    &&& m.position_y == #[trigger] perturbed(
                        self.position_y,
                        dy,
                        POSITION_FLOOR as int,
                        config.max_extended_length as int,
                    )
                },
            exists|df: i64|
                -VALUE_PERTURBATION <= df <= VALUE_PERTURBATION && m.friction
                    == #[trigger] perturbed(
                    self.friction,
                    df,
                    config.min_friction as int,
                    config.max_friction as int,
                ),
    {
        let position_threshold = scaled_chance(chance, config.position_mutation_chance_modifier);
        let (dx, dy): (i64, i64) = if random_in_range(0, UNIT) > position_threshold {
            (
                random_in_range(-POSITION_PERTURBATION, POSITION_PERTURBATION),
                random_in_range(-POSITION_PERTURBATION, POSITION_PERTURBATION),
            )
        } else {
            (0, 0)
        };
        let value_threshold = scaled_chance(chance, config.single_value_mutation_chance_modifier);
        let df: i64 = if random_in_range(0, UNIT) > value_threshold {
            random_in_range(-VALUE_PERTURBATION, VALUE_PERTURBATION)
        } else {
            0
        };

        let position_x = clamp_i64(
            clamp_i64(self.position_x, -MAX_MAGNITUDE, MAX_MAGNITUDE) + dx,
            -config.max_extended_length,
            config.max_extended_length,
        );
        let position_y = clamp_i64(
            clamp_i64(self.position_y, -MAX_MAGNITUDE, MAX_MAGNITUDE) + dy,
            POSITION_FLOOR,
            config.max_extended_length,
        );
        let friction = clamp_i64(
            clamp_i64(self.friction, -MAX_MAGNITUDE, MAX_MAGNITUDE) + df,
            config.min_friction,
            config.max_friction,
        );

        proof {
            assert(position_x == perturbed(
                self.position_x,
                dx,
                -config.max_extended_length,
                config.max_extended_length as int,
            ));
            assert(position_y == perturbed(
                self.position_y,
                dy,
                POSITION_FLOOR as int,
                config.max_extended_length as int,
            ));
            assert(friction == perturbed(
                self.friction,
                df,
                config.min_friction as int,
                config.max_friction as int,
            ));
        }
        NodePhenotype { position_x, position_y, friction }
    }
}

impl RandomCreatable for NodePhenotype {
    /// Draws every field uniformly within its configured range.
    fn random(config: &Config) -> (n: Self)
        ensures
            n.in_range(*config),
    {
        NodePhenotype {
            position_x: random_in_range(-config.max_extended_length, config.max_extended_length),
            position_y: random_in_range(POSITION_FLOOR, config.max_extended_length),
            friction: random_in_range(config.min_friction, config.max_friction),
        }
    }
}

/// The midpoint of `a` and `b`, rounded toward negative infinity.
fn midpoint(a: i64, b: i64) -> (m: i64)
    requires
        -MAX_MAGNITUDE <= a <= MAX_MAGNITUDE,
        -MAX_MAGNITUDE <= b <= MAX_MAGNITUDE,
    ensures
        m == (a + b) / 2,
{
    let s = a + b;
    if s >= 0 {
        s / 2
    } else {
        (s - 1) / 2
    }
}

} // verus!
