//! Tests of the driving engine: the generation state machine and the
//! evaluation protocol.

use creature_evolution::algorithm::Algorithm;
use creature_evolution::config::Config;
use creature_evolution::creature_chromosome::CreatureChromosome;
use creature_evolution::operations::RandomCreatable;
use creature_evolution::engine::{AlgorithmVariant, GeneticAlgorithm, RunState, StepOutcome};
use creature_evolution::muscle_phenotype::MusclePhenotype;
use creature_evolution::node_phenotype::NodePhenotype;
use creature_evolution::species_based_algorithm::SpeciesBasedAlgorithm;

fn flat_engine(max_generations: usize, max_no_improvement: usize) -> GeneticAlgorithm {
    let algorithm = Algorithm::new(
        Config::default(),
        2,
        max_generations,
        max_no_improvement,
        100,
        500,
    );
    GeneticAlgorithm::new(AlgorithmVariant::Flat(algorithm))
}

/// Stands in for the external fitness oracle: scores each creature by how
/// far its nodes spread horizontally.
fn evaluate(creature: &CreatureChromosome) -> i64 {
    let mut lowest = i64::MAX;
    let mut highest = i64::MIN;
    for node in &creature.nodes {
        lowest = lowest.min(node.position_x);
        highest = highest.max(node.position_x);
    }
    if creature.nodes.is_empty() {
        0
    } else {
        highest - lowest
    }
}

#[test]
fn run_walks_the_state_machine_to_its_end() {
    let mut engine = flat_engine(3, 10);
    assert!(!engine.has_ended());
    let mut to_evaluate = engine.start();
    assert_eq!(to_evaluate.len(), 4);
    let mut cycles = 0;
    loop {
        for mut creature in to_evaluate.drain(..) {
            creature.fitness = evaluate(&creature);
            engine.report(creature).unwrap();
        }
        match engine.step() {
            StepOutcome::NotReady => panic!("every report was delivered"),
            StepOutcome::Evaluate(next, stats) => {
                assert!(stats.is_some());
                assert_eq!(next.len(), 4);
                to_evaluate = next;
            }
            StepOutcome::Ended(stats) => {
                assert!(stats.is_some());
                break;
            }
        }
        cycles += 1;
        assert!(cycles <= 4, "the generation bound ends the run");
    }
    assert!(engine.has_ended());
}

#[test]
fn report_outside_evaluation_is_a_protocol_violation() {
    let mut engine = flat_engine(3, 10);
    let creature = CreatureChromosome::random(&Config::default());
    assert!(engine.report(creature).is_err());
}

#[test]
fn surplus_report_is_a_protocol_violation() {
    let mut engine = flat_engine(3, 10);
    let to_evaluate = engine.start();
    for mut creature in to_evaluate {
        creature.fitness = 100;
        engine.report(creature).unwrap();
    }
    // the awaited set is complete: one more report must be refused
    let surplus = CreatureChromosome::random(&Config::default());
    assert!(engine.report(surplus).is_err());
}

#[test]
fn negative_fitness_is_a_protocol_violation() {
    let mut engine = flat_engine(3, 10);
    let to_evaluate = engine.start();
    let mut creature = to_evaluate.into_iter().next().unwrap();
    creature.fitness = -1;
    assert!(engine.report(creature).is_err());
}

#[test]
fn report_for_unknown_individual_is_a_protocol_violation() {
    let mut engine = flat_engine(3, 10);
    let _to_evaluate = engine.start();
    // a creature that was never handed out must be refused, even though it
    // is structurally valid and carries a usable fitness
    let stranger = CreatureChromosome {
        fitness: 100,
        internal_clock_size: 1000,
        nodes: vec![
            NodePhenotype::default(),
            NodePhenotype::default(),
            NodePhenotype::default(),
        ],
        muscles: vec![
            MusclePhenotype {
                first_node: 0,
                second_node: 1,
                ..Default::default()
            },
            MusclePhenotype {
                first_node: 1,
                second_node: 2,
                ..Default::default()
            },
        ],
    };
    assert!(engine.report(stranger).is_err());
}

#[test]
fn duplicate_report_is_a_protocol_violation() {
    let mut engine = flat_engine(3, 10);
    let to_evaluate = engine.start();
    let mut creature = to_evaluate.into_iter().next().unwrap();
    creature.fitness = 100;
    let duplicate = creature.clone();
    assert!(engine.report(creature).is_ok());
    // the copy handed out has reported already: reporting it again must be
    // refused
    assert!(engine.report(duplicate).is_err());
}

#[test]
fn step_before_all_reports_changes_nothing() {
    let mut engine = flat_engine(3, 10);
    let to_evaluate = engine.start();
    let mut creature = to_evaluate.into_iter().next().unwrap();
    creature.fitness = 100;
    engine.report(creature).unwrap();
    assert!(matches!(engine.step(), StepOutcome::NotReady));
    assert!(matches!(engine.state, RunState::Evaluating));
}

#[test]
fn speciated_run_reaches_its_end_too() {
    let algorithm = SpeciesBasedAlgorithm::new(Config::default(), 2, 2, 10, 100, 500);
    let mut engine = GeneticAlgorithm::new(AlgorithmVariant::Speciated(algorithm));
    let mut to_evaluate = engine.start();
    let mut cycles = 0;
    while !engine.has_ended() {
        for mut creature in to_evaluate.drain(..) {
            creature.fitness = evaluate(&creature);
            engine.report(creature).unwrap();
        }
        match engine.step() {
            StepOutcome::NotReady => panic!("every report was delivered"),
            StepOutcome::Evaluate(next, _) => to_evaluate = next,
            StepOutcome::Ended(_) => break,
        }
        cycles += 1;
        assert!(cycles <= 3, "the generation bound ends the run");
    }
    assert!(engine.has_ended());
}
