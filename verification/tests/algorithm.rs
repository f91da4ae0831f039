//! Tests of the flat-population algorithm and the run statistics.

use creature_evolution::algorithm::Algorithm;
use creature_evolution::config::Config;
use creature_evolution::creature_chromosome::CreatureChromosome;
use creature_evolution::operations::RandomCreatable;
use creature_evolution::operations::Correctable;
use creature_evolution::runner::Runnable;
use creature_evolution::stats::{compute_stats, isqrt, InstanceStats};

fn scored(fitness: i64) -> CreatureChromosome {
    let config = Config::default();
    let mut c = CreatureChromosome::random(&config);
    c.fitness = fitness;
    c
}

fn fresh_algorithm(population_size: usize) -> Algorithm {
    Algorithm::new(Config::default(), population_size, 100, 10, 100, 500)
}

#[test]
fn initialization_fills_the_population() {
    let mut algorithm = fresh_algorithm(4);
    algorithm.initialize_population();
    assert_eq!(algorithm.population.len(), 4);
}

#[test]
fn selection_keeps_the_best_and_truncates() {
    let mut algorithm = fresh_algorithm(2);
    algorithm.population = vec![scored(5000), scored(1000), scored(9000), scored(3000)];
    algorithm.selection();
    assert_eq!(algorithm.population.len(), 2);
    assert_eq!(algorithm.population[0].fitness, 9000);
    assert_eq!(algorithm.population[1].fitness, 5000);
}

#[test]
fn reproduction_breeds_one_offspring_per_member() {
    let config = Config::default();
    let mut algorithm = fresh_algorithm(4);
    algorithm.initialize_population();
    algorithm.reproduction();
    assert_eq!(algorithm.offspring_population.len(), 4);
    for child in &algorithm.offspring_population {
        assert!(child.is_correct(&config));
        assert_eq!(child.fitness, 0);
    }
}

#[test]
fn evaluation_is_complete_after_twice_the_population_size() {
    let mut algorithm = fresh_algorithm(2);
    assert!(!algorithm.all_have_finished_evaluating());
    for i in 0..4 {
        algorithm.finished_evaluating(scored(i * 100));
    }
    assert!(algorithm.all_have_finished_evaluating());
}

#[test]
fn best_fitness_updates_only_on_strict_improvement() {
    let mut algorithm = fresh_algorithm(2);
    algorithm.initialize_population();
    algorithm.finished_evaluating(scored(4000));
    assert_eq!(algorithm.current_unbeat_best, (4000, 0));
    // a tie does not update the record
    algorithm.finished_evaluating(scored(4000));
    assert_eq!(algorithm.current_unbeat_best, (4000, 0));
    algorithm.finished_evaluating(scored(4001));
    assert_eq!(algorithm.current_unbeat_best, (4001, 0));
}

#[test]
fn termination_condition_is_exact() {
    // ends exactly when the generation counter passes the maximum, or the
    // best fitness stood longer than the no-improvement window
    let mut algorithm = Algorithm::new(Config::default(), 2, 5, 2, 100, 500);
    algorithm.initialize_population();
    assert!(!algorithm.get_should_end());
    algorithm.current_generation = 5;
    algorithm.current_unbeat_best = (1000, 4);
    assert!(!algorithm.get_should_end());
    algorithm.current_generation = 6;
    algorithm.current_unbeat_best = (1000, 6);
    assert!(algorithm.get_should_end());
    algorithm.current_generation = 5;
    algorithm.current_unbeat_best = (1000, 2);
    assert!(algorithm.get_should_end());
    algorithm.current_unbeat_best = (1000, 3);
    assert!(!algorithm.get_should_end());
}

#[test]
fn population_for_sim_concatenates_current_and_offspring() {
    let mut algorithm = fresh_algorithm(2);
    algorithm.initialize_population();
    algorithm.reproduction();
    let for_sim = algorithm.get_population_for_sim();
    assert_eq!(for_sim.len(), 4);
}

#[test]
fn replacement_moves_the_evaluated_population() {
    let mut algorithm = fresh_algorithm(2);
    for i in 0..4 {
        algorithm.finished_evaluating(scored((i + 1) * 1000));
    }
    algorithm.replacement();
    assert_eq!(algorithm.population.len(), 4);
    assert_eq!(algorithm.new_population.len(), 0);
    assert_eq!(algorithm.population[0].fitness, 1000);
}

#[test]
fn summary_reports_exact_statistics() {
    let mut algorithm = fresh_algorithm(2);
    algorithm.finished_evaluating(scored(3000));
    algorithm.finished_evaluating(scored(1000));
    algorithm.finished_evaluating(scored(7000));
    algorithm.finished_evaluating(scored(5000));
    let stats = algorithm.save_results(3).unwrap();
    assert_eq!(stats.generation, 3);
    assert_eq!(stats.best, 7000);
    assert_eq!(stats.worst, 1000);
    // sorted best first: 7000 5000 3000 1000; the middle position is index 2
    assert_eq!(stats.median, 3000);
    assert_eq!(stats.mean, 4000);
    // variance (9 + 1 + 1 + 9) million / 4 = 5 million; rounded-down root
    assert_eq!(stats.std_dev, 2236);
}

#[test]
fn summary_of_single_member_population() {
    let mut algorithm = fresh_algorithm(2);
    algorithm.finished_evaluating(scored(4200));
    let stats = algorithm.save_results(0).unwrap();
    assert_eq!(stats.best, 4200);
    assert_eq!(stats.worst, 4200);
    assert_eq!(stats.median, 4200);
    assert_eq!(stats.mean, 4200);
    assert_eq!(stats.std_dev, 0);
}

#[test]
fn summary_of_empty_population_is_absent() {
    let algorithm = fresh_algorithm(2);
    assert!(algorithm.save_results(0).is_none());
}

#[test]
fn integer_square_root_is_exact() {
    assert_eq!(isqrt(0), 0);
    assert_eq!(isqrt(1), 1);
    assert_eq!(isqrt(15), 3);
    assert_eq!(isqrt(16), 4);
    assert_eq!(isqrt(1_000_000), 1000);
    assert_eq!(isqrt(999_999), 999);
}

#[test]
fn instance_average_rounds_down() {
    let stats = InstanceStats {
        generation_count: 3,
        best_fitness: 7000,
        best_fitness_sum: 20_000,
    };
    assert_eq!(stats.average(), 6666);
}

#[test]
fn compute_stats_matches_save_results() {
    let population = vec![scored(2000), scored(8000)];
    let stats = compute_stats(&population, 1).unwrap();
    assert_eq!(stats.best, 8000);
    assert_eq!(stats.worst, 2000);
    assert_eq!(stats.mean, 5000);
    assert_eq!(stats.std_dev, 3000);
}

#[test]
fn default_config_has_the_documented_values() {
    let config = Config::default();
    assert_eq!(config.min_friction, 300);
    assert_eq!(config.max_friction, 1000);
    assert_eq!(config.min_strength, 500);
    assert_eq!(config.max_strength, 10_000);
    assert_eq!(config.min_contracted_length, 80);
    assert_eq!(config.max_contracted_length, 400);
    assert_eq!(config.min_extended_length, 80);
    assert_eq!(config.max_extended_length, 400);
    assert_eq!(config.min_contracted_time, 100);
    assert_eq!(config.max_contracted_time, 1000);
    assert_eq!(config.max_unchanged_generations, 10);
    assert_eq!(config.improvement_threshold, 50);
    assert_eq!(config.elimination_mutation_chance_modifier, 500);
    assert_eq!(config.position_mutation_chance_modifier, 1000);
    assert_eq!(config.single_value_mutation_chance_modifier, 1000);
    assert_eq!(config.creation_mutation_chance_modifier, 3000);
}
