//! The driving control loop's decision core.
//!
//! The engine owns one population algorithm and walks the generation state
//! machine: initialize, reproduce, hand the population out for evaluation,
//! collect every fitness report, then summarize, replace, select, and
//! reproduce again, until the termination condition holds. The caller
//! performs the outside work (evaluating creatures, persisting summaries)
//! and feeds the results back in; everything the engine decides is checked
//! here.

use vstd::prelude::*;
use crate::algorithm::Algorithm;
use crate::config::{Config, FITNESS_LIMIT};
use crate::creature_chromosome::CreatureChromosome;
use crate::operations::Correctable;
use crate::creature_chromosome::{same_body, RANDOM_MUSCLE_COUNT, RANDOM_NODE_COUNT};
use crate::runner::{same_creature, Runnable};
use crate::species_based_algorithm::{
    flat_members, lemma_flat_members_len, species_multiset, SpeciesBasedAlgorithm,
};
use crate::stats::{summarizes, GenerationStats};

verus! {

/// How many full generation cycles have completed.
#[derive(Clone, Copy, Debug, PartialEq, Eq, Structural, Default)]
pub struct GenerationCount(pub usize);

/// Where the run stands in its life cycle.
#[derive(Clone, Copy, Debug, PartialEq, Eq, Structural)]
pub enum RunState {
    /// No population exists yet.
    Uninitialized,
    /// An evaluation set is outstanding; reports are being collected.
    Evaluating,
    /// The termination condition held; the run is over.
    Ended,
}

/// The algorithm a run uses: one flat population, or species buckets.
pub enum AlgorithmVariant {
    /// The flat-population algorithm.
    Flat(Algorithm),
    /// The species-based algorithm.
    Speciated(SpeciesBasedAlgorithm),
}

/// A fault in the evaluation protocol: a fitness report arrived for a set
/// that is not outstanding, or beyond the awaited count, or carried an
/// unusable individual. The run must abort rather than corrupt statistics.
#[derive(Clone, Copy, Debug, PartialEq, Eq, Structural)]
pub struct ProtocolViolation;

/// What one driving step decided.
pub enum StepOutcome {
    /// Reports are still outstanding; nothing changed.
    NotReady,
    /// A cycle completed: here are its summary and the next set to
    /// evaluate.
    Evaluate(Vec<CreatureChromosome>, Option<GenerationStats>),
    /// A cycle completed and the termination condition held; the run is
    /// over.
    Ended(Option<GenerationStats>),
}

impl AlgorithmVariant {
    /// The well-formedness of the held algorithm.
    pub open spec fn wf(&self) -> bool {
        match self {
            AlgorithmVariant::Flat(a) => a.wf(),
            AlgorithmVariant::Speciated(a) => a.wf(),
        }
    }

    /// The configured number of survivors of each selection.
    pub open spec fn population_size(&self) -> usize {
        match self {
            AlgorithmVariant::Flat(a) => a.population_size,
            AlgorithmVariant::Speciated(a) => a.population_size,
        }
    }

    /// The configuration the algorithm runs under.
    pub open spec fn config_of(&self) -> Config {
        match self {
            AlgorithmVariant::Flat(a) => a.config,
            AlgorithmVariant::Speciated(a) => a.config,
        }
    }

    /// The generation counter of the held algorithm.
    pub open spec fn generation(&self) -> usize {
        match self {
            AlgorithmVariant::Flat(a) => a.current_generation,
            AlgorithmVariant::Speciated(a) => a.current_generation,
        }
    }

    /// The bound on generations of the held algorithm.
    pub open spec fn max_generations(&self) -> usize {
        match self {
            AlgorithmVariant::Flat(a) => a.max_generations,
            AlgorithmVariant::Speciated(a) => a.max_generations,
        }
    }

    /// The evaluated individuals collected so far this cycle.
    pub open spec fn collected(&self) -> Seq<CreatureChromosome> {
        match self {
            AlgorithmVariant::Flat(a) => a.new_population@,
            AlgorithmVariant::Speciated(a) => a.new_population@,
        }
    }

    /// The termination condition of the held algorithm: the generation
    /// counter passed the maximum, or the best fitness stood too long.
    pub open spec fn end_reached(&self) -> bool {
        match self {
            AlgorithmVariant::Flat(a) => a.current_generation > a.max_generations
                || a.current_generation - a.current_unbeat_best.1 > a.max_no_improvement,
            AlgorithmVariant::Speciated(a) => a.current_generation > a.max_generations
                || a.current_generation - a.current_unbeat_best.1 > a.max_no_improvement,
        }
    }
}

/// The creatures an algorithm hands out for evaluation: every current
/// member, in order, followed by the freshly bred offspring, each a deep
/// copy of the held one.
pub open spec fn sim_set(alg: &AlgorithmVariant, r: Seq<CreatureChromosome>) -> bool {
    match alg {
        AlgorithmVariant::Flat(a) => {
            &&& r.len() == a.population@.len() + a.offspring_population@.len()
            &&& forall|i: int| 0 <= i < a.population@.len() ==> same_creature(
                r[i],
                #[trigger] a.population@[i],
            )
            &&& forall|i: int| 0 <= i < a.offspring_population@.len() ==> same_creature(
                r[a.population@.len() + i],
                #[trigger] a.offspring_population@[i],
            )
        },
        AlgorithmVariant::Speciated(a) => {
            &&& r.len() == flat_members(a.population@).len() + a.offspring_population@.len()
            &&& forall|j: int| 0 <= j < flat_members(a.population@).len() ==> same_creature(
                r[j],
                #[trigger] flat_members(a.population@)[j],
            )
            &&& forall|i: int| 0 <= i < a.offspring_population@.len() ==> same_creature(
                r[flat_members(a.population@).len() + i],
                #[trigger] a.offspring_population@[i],
            )
        },
    }
}

/// A deep copy of a creature list, used to remember the awaited set.
fn copy_creatures(v: &Vec<CreatureChromosome>) -> (r: Vec<CreatureChromosome>)
    ensures
        r@.len() == v@.len(),
        forall|i: int| 0 <= i < v@.len() ==> same_creature(#[trigger] r@[i], v@[i]),
{
    let mut r: Vec<CreatureChromosome> = Vec::new();
    let mut k: usize = 0;
    while k < v.len()
        invariant
            k <= v@.len(),
            r@.len() == k,
            forall|i: int| 0 <= i < k ==> same_creature(#[trigger] r@[i], v@[i]),
        decreases v@.len() - k,
    {
        r.push(v[k].clone());
        k += 1;
    }
    r
}

/// One evolutionary run: an algorithm, where it stands in its life cycle,
/// how many full cycles have completed, and which handed-out creatures
/// still owe a fitness report.
pub struct GeneticAlgorithm {
    /// The population algorithm driving the run.
    pub algorithm: AlgorithmVariant,
    /// Where the run stands.
    pub state: RunState,
    /// How many full generation cycles have completed.
    pub generation_count: GenerationCount,
    /// The handed-out creatures whose fitness reports are still
    /// outstanding; a report must match one of them, body for body.
    pub awaiting: Vec<CreatureChromosome>,
}

impl GeneticAlgorithm {
    /// The engine invariant: the algorithm is well formed, and while an
    /// evaluation set is outstanding the run is live (the generation bound
    /// has not been passed), the cycle counter trails the algorithm's
    /// generation counter by one, and the outstanding creatures together
    /// with the collected reports account for the whole awaited set.
    pub open spec fn wf(&self) -> bool {
        &&& self.algorithm.wf()
        &&& self.algorithm.max_generations() >= 1
        &&& self.state is Evaluating ==> {
            &&& self.algorithm.generation() <= self.algorithm.max_generations()
            &&& self.algorithm.generation() >= 1
            &&& self.generation_count.0 == self.algorithm.generation() - 1
            &&& self.awaiting@.len() + self.algorithm.collected().len() == 2
                * self.algorithm.population_size()
            &&& match &self.algorithm {
                AlgorithmVariant::Flat(a) => a.population@.len() == a.population_size
                    && a.population@.len() % 2 == 0,
                AlgorithmVariant::Speciated(_) => true,
            }
        }
    }

    /// A fresh, uninitialized run around the given algorithm.
    pub fn new(algorithm: AlgorithmVariant) -> (r: GeneticAlgorithm)
        requires
            algorithm.wf(),
            algorithm.max_generations() >= 1,
        ensures
            r.wf(),
            r.state is Uninitialized,
            r.algorithm == algorithm,
            r.generation_count.0 == 0,
            r.awaiting@.len() == 0,
    {
        GeneticAlgorithm {
            algorithm,
            state: RunState::Uninitialized,
            generation_count: GenerationCount(0),
            awaiting: Vec::new(),
        }
    }

    /// Starts (or restarts) the run: creates the initial population, breeds
    /// the first offspring, and hands out the first set to evaluate — the
    /// current population followed by the offspring, copy for copy. The
    /// run then awaits one fitness report per member of that exact set.
    pub fn start(&mut self) -> (r: Vec<CreatureChromosome>)
        requires
            old(self).wf(),
        ensures
            final(self).wf(),
            final(self).state is Evaluating,
            final(self).generation_count.0 == 0,
            final(self).algorithm.generation() == 1,
            final(self).algorithm.collected().len() == 0,
            r@.len() == 2 * final(self).algorithm.population_size(),
            sim_set(&final(self).algorithm, r@),
            match &final(self).algorithm {
                AlgorithmVariant::Flat(a) => forall|i: int|
                    0 <= i < a.population@.len() ==> (#[trigger] a.population@[i]).nodes@.len()
                        == RANDOM_NODE_COUNT && a.population@[i].muscles@.len()
                        >= RANDOM_MUSCLE_COUNT,
                AlgorithmVariant::Speciated(a) => forall|si: int, m: int|
                    0 <= si < a.population@.len() && 0 <= m < a.population@[si].members@.len()
                        ==> (#[trigger] a.population@[si].members@[m]).nodes@.len()
                        == RANDOM_NODE_COUNT && a.population@[si].members@[m].muscles@.len()
                        >= RANDOM_MUSCLE_COUNT,
            },
            final(self).awaiting@.len() == r@.len(),
            forall|i: int| 0 <= i < r@.len() ==> same_creature(
                #[trigger] final(self).awaiting@[i],
                r@[i],
            ),
    {
        self.generation_count = GenerationCount(0);
        let out = match &mut self.algorithm {
            AlgorithmVariant::Flat(a) => {
                a.initialize_population();
                a.reproduction();
                a.get_population_for_sim()
            },
            AlgorithmVariant::Speciated(a) => {
                a.initialize_population();
                a.reproduction();
                proof {
                    lemma_flat_members_len(a.population@);
                }
                a.get_population_for_sim()
            },
        };
        self.awaiting = copy_creatures(&out);
        self.state = RunState::Evaluating;
        out
    }

    /// Collects one fitness report. A report is accepted only while an
    /// evaluation set is outstanding, only for a creature whose body
    /// matches one still-outstanding member of that set (so a report for
    /// an unknown individual, or a duplicate beyond the copies handed out,
    /// is refused), and only with a usable fitness on a structurally valid
    /// individual. Anything else is a protocol violation and the caller
    /// must abort the run rather than corrupt its statistics.
    pub fn report(&mut self, chromosome: CreatureChromosome) -> (r: Result<
        (),
        ProtocolViolation,
    >)
        requires
            old(self).wf(),
        ensures
            final(self).wf(),
            r is Ok <==> {
                &&& old(self).state is Evaluating
                &&& exists|j: int|
                    0 <= j < old(self).awaiting@.len() && same_body(
                        #[trigger] old(self).awaiting@[j],
                        chromosome,
                    )
                &&& 0 <= chromosome.fitness <= FITNESS_LIMIT
                &&& chromosome.is_correct_spec(old(self).algorithm.config_of())
            },
            r is Ok ==> final(self).algorithm.collected() == old(self).algorithm.collected()
                .push(chromosome),
            r is Ok ==> exists|j: int|
                0 <= j < old(self).awaiting@.len() && same_body(
                    #[trigger] old(self).awaiting@[j],
                    chromosome,
                ) && final(self).awaiting@ == old(self).awaiting@.remove(j),
            r is Err ==> *final(self) == *old(self),
    {
        if !matches!(self.state, RunState::Evaluating) {
            return Err(ProtocolViolation);
        }
        // the report must match a creature that is still outstanding
        let n = self.awaiting.len();
        let mut i: usize = 0;
        let mut found_at: usize = n;
        while i < n
            invariant
                i <= n,
                n == self.awaiting@.len(),
                found_at == n || (found_at < n && same_body(
                    self.awaiting@[found_at as int],
                    chromosome,
                )),
                found_at == n ==> forall|j: int| 0 <= j < i ==> !same_body(
                    #[trigger] self.awaiting@[j],
                    chromosome,
                ),
            decreases n - i,
        {
            if self.awaiting[i].has_same_body(&chromosome) {
                found_at = i;
                i = n;
            } else {
                i += 1;
            }
        }
        if found_at >= n {
            return Err(ProtocolViolation);
        }
        if chromosome.fitness < 0 || chromosome.fitness > FITNESS_LIMIT {
            return Err(ProtocolViolation);
        }
        match &mut self.algorithm {
            AlgorithmVariant::Flat(a) => {
                if !chromosome.is_correct(&a.config) {
                    return Err(ProtocolViolation);
                }
                a.finished_evaluating(chromosome);
            },
            AlgorithmVariant::Speciated(a) => {
                if !chromosome.is_correct(&a.config) {
                    return Err(ProtocolViolation);
                }
                a.finished_evaluating(chromosome);
            },
        }
        self.awaiting.remove(found_at);
        Ok(())
    }

    /// Drives one cycle once every awaited report has arrived: summarize
    /// the evaluated population, replace, select, reproduce, and decide
    /// termination. Before that, nothing changes. The caller persists the
    /// summary and evaluates the next set, which is again the current
    /// population followed by the offspring, copy for copy.
    pub fn step(&mut self) -> (r: StepOutcome)
        requires
            old(self).wf(),
        ensures
            final(self).wf(),
            r is NotReady <==> !(old(self).state is Evaluating && old(
                self,
            ).algorithm.collected().len() == 2 * old(self).algorithm.population_size()),
            r is NotReady ==> *final(self) == *old(self),
            r matches StepOutcome::Evaluate(next, stats) ==> {
                &&& summarizes(old(self).algorithm.collected(), old(self).generation_count.0, stats)
                &&& final(self).state is Evaluating
                &&& final(self).generation_count.0 == old(self).generation_count.0 + 1
                &&& final(self).algorithm.generation() == old(self).algorithm.generation() + 1
                &&& final(self).algorithm.collected().len() == 0
                &&& !final(self).algorithm.end_reached()
                &&& next@.len() == 2 * final(self).algorithm.population_size()
                &&& sim_set(&final(self).algorithm, next@)
                &&& final(self).awaiting@.len() == next@.len()
                &&& forall|i: int| 0 <= i < next@.len() ==> same_creature(
                    #[trigger] final(self).awaiting@[i],
                    next@[i],
                )
            },
            r matches StepOutcome::Ended(stats) ==> {
                &&& summarizes(old(self).algorithm.collected(), old(self).generation_count.0, stats)
                &&& final(self).state is Ended
                &&& final(self).algorithm.end_reached()
            },
    {
        if !matches!(self.state, RunState::Evaluating) {
            return StepOutcome::NotReady;
        }
        let (ready, stats) = match &mut self.algorithm {
            AlgorithmVariant::Flat(a) => {
                if !a.all_have_finished_evaluating() {
                    (false, None)
                } else {
                    let stats = a.save_results(self.generation_count.0);
                    a.replacement();
                    a.selection();
                    a.reproduction();
                    (true, stats)
                }
            },
            AlgorithmVariant::Speciated(a) => {
                if !a.all_have_finished_evaluating() {
                    (false, None)
                } else {
                    let stats = a.save_results(self.generation_count.0);
                    let ghost collected = a.new_population@;
                    a.replacement();
                    proof {
                        collected.to_multiset_ensures();
                    }
                    a.selection();
                    a.reproduction();
                    (true, stats)
                }
            },
        };
        if !ready {
            return StepOutcome::NotReady;
        }
        self.generation_count = GenerationCount(self.generation_count.0 + 1);
        let should_end = match &self.algorithm {
            AlgorithmVariant::Flat(a) => a.get_should_end(),
            AlgorithmVariant::Speciated(a) => a.get_should_end(),
        };
        if should_end {
            self.state = RunState::Ended;
            self.awaiting = Vec::new();
            StepOutcome::Ended(stats)
        } else {
            let next = match &self.algorithm {
                AlgorithmVariant::Flat(a) => a.get_population_for_sim(),
                AlgorithmVariant::Speciated(a) => {
                    proof {
                        lemma_flat_members_len(a.population@);
                    }
                    a.get_population_for_sim()
                },
            };
            self.awaiting = copy_creatures(&next);
            StepOutcome::Evaluate(next, stats)
        }
    }

    /// Whether the run has reached its terminal state.
    pub fn has_ended(&self) -> (r: bool)
        ensures
            r == (self.state is Ended),
    {
        matches!(self.state, RunState::Ended)
    }
}

} // verus!
