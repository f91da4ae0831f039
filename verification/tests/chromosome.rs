//! Tests of the chromosome's structural repair and genetic operators.

use creature_evolution::config::Config;
use creature_evolution::creature_chromosome::CreatureChromosome;
use creature_evolution::muscle_phenotype::MusclePhenotype;
use creature_evolution::node_phenotype::NodePhenotype;
use creature_evolution::operations::{
    Breedable, Correctable, Crossable, Mutable, RandomCreatable,
};

fn three_node_chain() -> CreatureChromosome {
    let nodes = vec![
        NodePhenotype::default(),
        NodePhenotype::default(),
        NodePhenotype::default(),
    ];
    let muscles = vec![
        MusclePhenotype {
            first_node: 0,
            second_node: 1,
            ..Default::default()
        },
        MusclePhenotype {
            first_node: 1,
            second_node: 2,
            ..Default::default()
        },
    ];
    CreatureChromosome {
        fitness: 0,
        internal_clock_size: 1000,
        nodes,
        muscles,
    }
}

#[test]
fn test_correct_for_correct_creature() {
    let config = Config::default();
    let mut creature_chromosome = three_node_chain();
    let creature_chromosome_before_correct = creature_chromosome.clone();
    creature_chromosome.correct(&config);
    assert_eq!(creature_chromosome, creature_chromosome_before_correct);
}

#[test]
fn test_fixes_nodes_for_muscles() {
    let config = Config::default();
    let nodes = vec![
        NodePhenotype::default(),
        NodePhenotype::default(),
        NodePhenotype::default(),
    ];
    let muscles = vec![
        MusclePhenotype {
            first_node: 0,
            second_node: 1,
            ..Default::default()
        },
        MusclePhenotype {
            first_node: 1,
            second_node: 1,
            ..Default::default()
        },
    ];
    let mut creature_chromosome = CreatureChromosome {
        fitness: 0,
        internal_clock_size: 1000,
        nodes,
        muscles,
    };

    assert_eq!(creature_chromosome.is_correct(&config), false);
    creature_chromosome.correct(&config);
    assert_eq!(creature_chromosome.is_correct(&config), true);
}

#[test]
fn self_loop_is_gone_after_repair() {
    let config = Config::default();
    let nodes = vec![
        NodePhenotype::default(),
        NodePhenotype::default(),
        NodePhenotype::default(),
    ];
    let muscles = vec![
        MusclePhenotype {
            first_node: 0,
            second_node: 1,
            ..Default::default()
        },
        MusclePhenotype {
            first_node: 1,
            second_node: 1,
            ..Default::default()
        },
    ];
    let mut chromosome = CreatureChromosome {
        fitness: 0,
        internal_clock_size: 1000,
        nodes,
        muscles,
    };
    assert!(!chromosome.is_correct(&config));
    chromosome.correct(&config);
    assert!(chromosome.is_correct(&config));
    for muscle in &chromosome.muscles {
        assert_ne!(muscle.first_node, muscle.second_node);
        assert!(muscle.first_node < chromosome.nodes.len());
        assert!(muscle.second_node < chromosome.nodes.len());
    }
}

#[test]
fn out_of_bounds_index_is_resampled_in_range() {
    let config = Config::default();
    let nodes = vec![
        NodePhenotype::default(),
        NodePhenotype::default(),
        NodePhenotype::default(),
    ];
    // one muscle points far outside the node list
    let muscles = vec![
        MusclePhenotype {
            first_node: 0,
            second_node: 1,
            ..Default::default()
        },
        MusclePhenotype {
            first_node: 0,
            second_node: 256,
            ..Default::default()
        },
    ];
    let mut chromosome = CreatureChromosome {
        fitness: 0,
        internal_clock_size: 1000,
        nodes,
        muscles,
    };
    assert!(!chromosome.is_correct(&config));
    chromosome.correct(&config);
    assert!(chromosome.is_correct(&config));
    for muscle in &chromosome.muscles {
        assert!(muscle.first_node < 3);
        assert!(muscle.second_node < 3);
    }
}

#[test]
fn random_creature_is_correct() {
    let config = Config::default();
    for _ in 0..20 {
        let creature = CreatureChromosome::random(&config);
        assert!(creature.is_correct(&config));
        assert_eq!(creature.fitness, 0);
        assert_eq!(creature.nodes.len(), 8);
        assert!(creature.muscles.len() >= 9);
    }
}

#[test]
fn breeding_pipeline_keeps_creatures_correct() {
    let config = Config::default();
    let a = CreatureChromosome::random(&config);
    let b = CreatureChromosome::random(&config);
    for _ in 0..10 {
        let (first, second) = a.breed(&b, &config, 500);
        let mut first = first.mutate(&config, 100);
        let mut second = second.mutate(&config, 100);
        first.correct(&config);
        second.correct(&config);
        assert!(first.is_correct(&config));
        assert!(second.is_correct(&config));
    }
}

#[test]
fn repair_is_idempotent() {
    let config = Config::default();
    for _ in 0..10 {
        let mut creature = CreatureChromosome::random(&config);
        creature.correct(&config);
        let after_first = creature.clone();
        creature.correct(&config);
        assert_eq!(creature, after_first);
    }
}

#[test]
fn repair_preserves_counts_of_connected_creature() {
    let config = Config::default();
    let mut chromosome = three_node_chain();
    chromosome.correct(&config);
    assert_eq!(chromosome.nodes.len(), 3);
    assert_eq!(chromosome.muscles.len(), 2);
}

#[test]
fn repair_connects_dangling_component() {
    let config = Config::default();
    let nodes = vec![
        NodePhenotype::default(),
        NodePhenotype::default(),
        NodePhenotype::default(),
        NodePhenotype::default(),
    ];
    let muscles = vec![
        MusclePhenotype {
            first_node: 0,
            second_node: 1,
            ..Default::default()
        },
        MusclePhenotype {
            first_node: 2,
            second_node: 3,
            ..Default::default()
        },
    ];
    let mut chromosome = CreatureChromosome {
        fitness: 0,
        internal_clock_size: 1000,
        nodes,
        muscles,
    };
    assert!(!chromosome.is_correct(&config));
    chromosome.correct(&config);
    assert!(chromosome.is_correct(&config));
    assert_eq!(chromosome.nodes.len(), 4);
    // exactly one muscle was synthesized to join the two components
    assert_eq!(chromosome.muscles.len(), 3);
}

#[test]
fn repair_adds_one_muscle_per_extra_component() {
    let config = Config::default();
    // three separate two-node components
    let nodes = (0..6).map(|_| NodePhenotype::default()).collect::<Vec<_>>();
    let muscles = vec![
        MusclePhenotype {
            first_node: 0,
            second_node: 1,
            ..Default::default()
        },
        MusclePhenotype {
            first_node: 2,
            second_node: 3,
            ..Default::default()
        },
        MusclePhenotype {
            first_node: 4,
            second_node: 5,
            ..Default::default()
        },
    ];
    let mut chromosome = CreatureChromosome {
        fitness: 0,
        internal_clock_size: 1000,
        nodes,
        muscles,
    };
    chromosome.correct(&config);
    assert!(chromosome.is_correct(&config));
    assert_eq!(chromosome.muscles.len(), 5);
}

#[test]
fn crossover_takes_shorter_parent_counts() {
    let config = Config::default();
    let mut a = CreatureChromosome::random(&config);
    let mut b = CreatureChromosome::random(&config);
    a.correct(&config);
    b.correct(&config);
    let child = a.cross(&b, &config, 500);
    let min_nodes = a.nodes.len().min(b.nodes.len());
    let min_muscles = a.muscles.len().min(b.muscles.len());
    assert_eq!(child.nodes.len(), min_nodes);
    assert_eq!(child.muscles.len(), min_muscles);
    assert_eq!(child.fitness, 0);
}

#[test]
fn node_repair_clamps_every_field() {
    let config = Config::default();
    let mut node = NodePhenotype {
        position_x: 5000,
        position_y: 0,
        friction: 0,
    };
    assert!(!node.is_correct(&config));
    node.correct(&config);
    // clamped onto the default bounds: |x| <= 400, y in [40, 400],
    // friction in [300, 1000]
    assert_eq!(node.position_x, 400);
    assert_eq!(node.position_y, 40);
    assert_eq!(node.friction, 300);
    assert!(node.is_correct(&config));
}

#[test]
fn node_cross_takes_position_midpoint() {
    let config = Config::default();
    let a = NodePhenotype {
        position_x: -100,
        position_y: 40,
        friction: 300,
    };
    let b = NodePhenotype {
        position_x: 301,
        position_y: 60,
        friction: 1000,
    };
    let child = a.cross(&b, &config, 500);
    assert_eq!(child.position_x, 100);
    assert_eq!(child.position_y, 50);
    assert!(child.friction == 300 || child.friction == 1000);
}

#[test]
fn muscle_repair_orders_lengths() {
    let config = Config::default();
    let mut muscle = MusclePhenotype {
        contracted_time: 2000,
        extended_length: 300,
        contracted_length: 500,
        strength: 0,
        first_node: 0,
        second_node: 1,
    };
    assert!(!muscle.is_correct(&config));
    muscle.correct(&config);
    // contracted_time clamps to 1000, contracted_length clamps to 400 and
    // then lowers onto the extended length, strength clamps to 500
    assert_eq!(muscle.contracted_time, 1000);
    assert_eq!(muscle.extended_length, 300);
    assert_eq!(muscle.contracted_length, 300);
    assert_eq!(muscle.strength, 500);
    assert!(muscle.is_correct(&config));
}

#[test]
fn mutation_keeps_nodes_in_range() {
    let config = Config::default();
    let node = NodePhenotype::default();
    for _ in 0..20 {
        let mutated = node.mutate(&config, 100);
        assert!(mutated.is_correct(&config));
    }
}
