//! Tests of the species-based algorithm: bucketing, selection across
//! species, reproduction with pairing, and stagnation outbreeding.

use creature_evolution::config::Config;
use creature_evolution::creature_chromosome::CreatureChromosome;
use creature_evolution::muscle_phenotype::MusclePhenotype;
use creature_evolution::node_phenotype::NodePhenotype;
use creature_evolution::runner::Runnable;
use creature_evolution::species_based_algorithm::{
    Species, SpeciesBasedAlgorithm, SpeciesBest,
};

/// A connected chain creature with the given number of nodes.
fn chain(node_count: usize, fitness: i64) -> CreatureChromosome {
    let nodes = (0..node_count).map(|_| NodePhenotype::default()).collect::<Vec<_>>();
    let muscles = (0..node_count - 1)
        .map(|i| MusclePhenotype {
            first_node: i,
            second_node: i + 1,
            ..Default::default()
        })
        .collect::<Vec<_>>();
    CreatureChromosome {
        fitness,
        internal_clock_size: 1000,
        nodes,
        muscles,
    }
}

fn fresh_species_algorithm(population_size: usize) -> SpeciesBasedAlgorithm {
    SpeciesBasedAlgorithm::new(Config::default(), population_size, 100, 10, 100, 500)
}

fn total_members(algorithm: &SpeciesBasedAlgorithm) -> usize {
    algorithm.population.iter().map(|s| s.members.len()).sum()
}

#[test]
fn species_initialization_buckets_by_node_count() {
    let mut algorithm = fresh_species_algorithm(6);
    algorithm.initialize_population();
    assert_eq!(total_members(&algorithm), 6);
    for species in &algorithm.population {
        assert!(!species.members.is_empty());
        for member in &species.members {
            assert_eq!(member.nodes.len(), species.key);
        }
    }
}

#[test]
fn species_selection_is_globally_fitness_monotonic() {
    let mut algorithm = fresh_species_algorithm(2);
    algorithm.population = vec![
        Species {
            key: 3,
            members: vec![chain(3, 1000), chain(3, 9000)],
        },
        Species {
            key: 5,
            members: vec![chain(5, 5000), chain(5, 3000)],
        },
    ];
    algorithm.selection();
    assert_eq!(total_members(&algorithm), 2);
    let mut survivors: Vec<i64> = Vec::new();
    for species in &algorithm.population {
        for member in &species.members {
            survivors.push(member.fitness);
        }
    }
    survivors.sort();
    assert_eq!(survivors, vec![5000, 9000]);
}

#[test]
fn species_reproduction_fills_the_population_exactly() {
    // two species keyed by node count, four individuals in all: after
    // truncation the offspring match the current total population size and
    // reference only nodes of their own chromosome
    let mut algorithm = fresh_species_algorithm(4);
    algorithm.population = vec![
        Species {
            key: 3,
            members: vec![chain(3, 2000), chain(3, 1000)],
        },
        Species {
            key: 5,
            members: vec![chain(5, 4000), chain(5, 3000)],
        },
    ];
    algorithm.reproduction();
    assert_eq!(algorithm.offspring_population.len(), 4);
    for child in &algorithm.offspring_population {
        for muscle in &child.muscles {
            assert!(muscle.first_node < child.nodes.len());
            assert!(muscle.second_node < child.nodes.len());
            assert_ne!(muscle.first_node, muscle.second_node);
        }
    }
}

#[test]
fn odd_species_breeds_its_leftover_member() {
    let mut algorithm = fresh_species_algorithm(4);
    algorithm.population = vec![
        Species {
            key: 3,
            members: vec![chain(3, 2000), chain(3, 1000), chain(3, 500)],
        },
    ];
    algorithm.reproduction();
    // one full pair and one leftover pair give four children, truncated to
    // the population total of three
    assert_eq!(algorithm.offspring_population.len(), 3);
}

#[test]
fn stagnation_counter_grows_without_improvement() {
    let mut algorithm = fresh_species_algorithm(2);
    algorithm.population = vec![
        Species {
            key: 3,
            members: vec![chain(3, 2000), chain(3, 1000)],
        },
    ];
    algorithm.reproduction();
    assert_eq!(algorithm.previous_best_by_species.len(), 1);
    let record = algorithm.previous_best_by_species[0];
    assert_eq!(record.key, 3);
    assert_eq!(record.best_fitness, 2000);
    assert_eq!(record.stagnation, 0);
    // no improvement beyond the threshold: the counter grows
    algorithm.reproduction();
    assert_eq!(algorithm.previous_best_by_species[0].stagnation, 1);
    // a clear improvement resets the counter and records the new best
    algorithm.population[0].members[0].fitness = 9000;
    algorithm.reproduction();
    let record = algorithm.previous_best_by_species[0];
    assert_eq!(record.best_fitness, 9000);
    assert_eq!(record.stagnation, 0);
}

#[test]
fn stagnant_species_breeds_against_the_ranking() {
    // a species whose recorded stagnation counter exceeds the threshold
    // takes its partners from the globally ranked population
    let species = Species {
        key: 3,
        members: vec![chain(3, 2000), chain(3, 1000)],
    };
    let ranked = vec![chain(5, 9000), chain(3, 2000), chain(3, 1000)];
    let pairs = SpeciesBasedAlgorithm::breeding_pairs(&species, &ranked, true);
    assert_eq!(pairs.len(), 1);
    assert_eq!(pairs[0].0, species.members[0]);
    assert_eq!(pairs[0].1, ranked[0]);
    // without stagnation the same species pairs within itself
    let within = SpeciesBasedAlgorithm::breeding_pairs(&species, &ranked, false);
    assert_eq!(within.len(), 1);
    assert_eq!(within[0].0, species.members[0]);
    assert_eq!(within[0].1, species.members[1]);
}

#[test]
fn odd_species_pairs_its_leftover_against_the_ranking() {
    let species = Species {
        key: 3,
        members: vec![chain(3, 2000), chain(3, 1000), chain(3, 500)],
    };
    let ranked = vec![chain(5, 9000), chain(3, 2000), chain(3, 1000)];
    let pairs = SpeciesBasedAlgorithm::breeding_pairs(&species, &ranked, false);
    assert_eq!(pairs.len(), 2);
    assert_eq!(pairs[1].0, species.members[2]);
    assert_eq!(pairs[1].1, ranked[2]);
}

#[test]
fn stagnant_species_keeps_its_record_during_outbreeding() {
    let mut algorithm = fresh_species_algorithm(2);
    algorithm.population = vec![
        Species {
            key: 3,
            members: vec![chain(3, 2000), chain(3, 1000)],
        },
    ];
    algorithm.previous_best_by_species = vec![SpeciesBest {
        key: 3,
        best_fitness: 8000,
        stagnation: 11,
    }];
    algorithm.current_generation = 12;
    algorithm.reproduction();
    // the stagnant species outbreeds; its record is left untouched
    assert_eq!(algorithm.previous_best_by_species[0].stagnation, 11);
    assert_eq!(algorithm.offspring_population.len(), 2);
}

#[test]
fn species_replacement_rebuckets_by_key() {
    let mut algorithm = fresh_species_algorithm(2);
    algorithm.finished_evaluating(chain(3, 1000));
    algorithm.finished_evaluating(chain(5, 2000));
    algorithm.finished_evaluating(chain(3, 3000));
    algorithm.finished_evaluating(chain(5, 4000));
    algorithm.replacement();
    assert_eq!(algorithm.new_population.len(), 0);
    assert_eq!(algorithm.population.len(), 2);
    for species in &algorithm.population {
        assert_eq!(species.members.len(), 2);
        for member in &species.members {
            assert_eq!(member.nodes.len(), species.key);
        }
    }
}

#[test]
fn species_summary_reports_the_unique_best() {
    let mut algorithm = fresh_species_algorithm(2);
    algorithm.finished_evaluating(chain(3, 1000));
    algorithm.finished_evaluating(chain(3, 6500));
    algorithm.finished_evaluating(chain(5, 2000));
    algorithm.finished_evaluating(chain(5, 4000));
    let stats = algorithm.save_results(7).unwrap();
    assert_eq!(stats.generation, 7);
    assert_eq!(stats.best, 6500);
    assert!(stats.worst <= stats.best);
}
