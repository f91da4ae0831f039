//! The flat-population algorithm: one ordered population, truncation
//! selection, pairwise breeding, and best-fitness bookkeeping.

use vstd::prelude::*;
use crate::config::{Config, FITNESS_LIMIT, UNIT};
use crate::creature_chromosome::{CreatureChromosome, RANDOM_MUSCLE_COUNT, RANDOM_NODE_COUNT};
use crate::operations::{Breedable, Correctable, Mutable, RandomCreatable};
use crate::ranking::{sort_by_fitness_desc, sorted_desc};
use crate::runner::{lemma_members_ok_sub, members_ok, same_creature, Runnable};
use crate::stats::{compute_stats, summarizes, GenerationStats, MAX_POPULATION};

verus! {

broadcast use vstd::seq_lib::group_to_multiset_ensures;

/// Whether the two children were bred from the given parent pair, as far
/// as randomness allows the structure to be pinned: crossover gives a child
/// the shorter parent's node count, structural mutation moves it by at most
/// one, and repair never changes it.
pub open spec fn pair_bred(
    children: Seq<CreatureChromosome>,
    first_parent: CreatureChromosome,
    second_parent: CreatureChromosome,
) -> bool {
    &&& children.len() == 2
    &&& forall|j: int|
        0 <= j < 2 ==> vstd::math::min(
            first_parent.nodes@.len() as int,
            second_parent.nodes@.len() as int,
        ) - 1 <= (#[trigger] children[j]).nodes@.len() <= vstd::math::min(
            first_parent.nodes@.len() as int,
            second_parent.nodes@.len() as int,
        ) + 1
}

/// Whether the run parameters of two algorithm states agree.
pub open spec fn same_parameters(a: &Algorithm, b: &Algorithm) -> bool {
    &&& a.config == b.config
    &&& a.population_size == b.population_size
    &&& a.max_generations == b.max_generations
    &&& a.max_no_improvement == b.max_no_improvement
    &&& a.mutation_chance == b.mutation_chance
    &&& a.crossover_chance == b.crossover_chance
}

/// The flat-population algorithm's state across one run.
pub struct Algorithm {
    /// The current generation's population.
    pub population: Vec<CreatureChromosome>,
    /// The offspring bred from the current population, awaiting evaluation.
    pub offspring_population: Vec<CreatureChromosome>,
    /// The configuration injected at construction.
    pub config: Config,
    /// Generations after which the run ends regardless of progress.
    pub max_generations: usize,
    /// Generations without improvement after which the run ends.
    pub max_no_improvement: usize,
    /// Best fitness ever reported, with the generation it arrived in.
    pub current_unbeat_best: (i64, usize),
    /// Evaluated individuals accumulated during the current cycle.
    pub new_population: Vec<CreatureChromosome>,
    /// How many reproductions have happened.
    pub current_generation: usize,
    /// Chance governing each mutation coin, in thousandths.
    pub mutation_chance: i64,
    /// Chance governing each crossover coin, in thousandths.
    pub crossover_chance: i64,
    /// How many individuals survive selection.
    pub population_size: usize,
}

impl Algorithm {
    /// A fresh run with the given parameters and an empty population.
    pub fn new(
        config: Config,
        population_size: usize,
        max_generations: usize,
        max_no_improvement: usize,
        mutation_chance: i64,
        crossover_chance: i64,
    ) -> (r: Algorithm)
        requires
            config.wf(),
            0 < population_size,
            population_size % 2 == 0,
            population_size <= MAX_POPULATION / 2,
            max_generations <= usize::MAX - 2,
            0 <= mutation_chance <= UNIT,
            0 <= crossover_chance <= UNIT,
        ensures
            r.wf(),
            r.population@.len() == 0,
            r.offspring_population@.len() == 0,
            r.new_population@.len() == 0,
            r.config == config,
            r.population_size == population_size,
            r.max_generations == max_generations,
            r.max_no_improvement == max_no_improvement,
            r.mutation_chance == mutation_chance,
            r.crossover_chance == crossover_chance,
            r.current_generation == 0,
    {
        Algorithm {
            population: Vec::new(),
            offspring_population: Vec::new(),
            config,
            max_generations,
            max_no_improvement,
            current_unbeat_best: (i64::MIN, 0),
            new_population: Vec::new(),
            current_generation: 0,
            mutation_chance,
            crossover_chance,
            population_size,
        }
    }
}

impl Runnable for Algorithm {
    open spec fn wf(&self) -> bool {
        &&& self.config.wf()
        &&& 0 < self.population_size
        &&& self.population_size % 2 == 0
        &&& self.population_size <= MAX_POPULATION / 2
        &&& self.max_generations <= usize::MAX - 2
        &&& self.current_generation <= self.max_generations + 1
        &&& 0 <= self.mutation_chance <= UNIT
        &&& 0 <= self.crossover_chance <= UNIT
        &&& self.current_unbeat_best.1 <= self.current_generation
        &&& self.new_population@.len() <= 2 * self.population_size
        &&& members_ok(self.population@, self.config)
        &&& members_ok(self.offspring_population@, self.config)
        &&& members_ok(self.new_population@, self.config)
    }

    open spec fn selection_req(&self) -> bool {
        self.population@.len() >= self.population_size
    }

    open spec fn reproduction_req(&self) -> bool {
        self.population@.len() % 2 == 0 && self.current_generation <= self.max_generations
    }

    open spec fn finished_req(&self, chromosome: &CreatureChromosome) -> bool {
        &&& 0 <= chromosome.fitness <= FITNESS_LIMIT
        &&& chromosome.is_correct_spec(self.config)
        &&& self.new_population@.len() < 2 * self.population_size
    }

    /// Clears the run state — counters, best-fitness record, offspring,
    /// and collected reports — and creates `population_size` fresh random
    /// individuals.
    #[verifier::loop_isolation(false)]
    fn initialize_population(&mut self)
        ensures
            final(self).population@.len() == old(self).population_size,
            final(self).current_generation == 0,
            final(self).current_unbeat_best == (i64::MIN, 0usize),
            forall|i: int|
                0 <= i < final(self).population@.len()
                    ==> (#[trigger] final(self).population@[i]).fitness == 0 && final(self).population@[i].nodes@.len() == RANDOM_NODE_COUNT && final(self).population@[i].muscles@.len() >= RANDOM_MUSCLE_COUNT,
            final(self).offspring_population@.len() == 0,
            final(self).new_population@.len() == 0,
            same_parameters(final(self), old(self)),
    {
        self.current_generation = 0;
        self.current_unbeat_best = (i64::MIN, 0);
        self.offspring_population = Vec::new();
        self.new_population = Vec::new();
        let mut population: Vec<CreatureChromosome> = Vec::new();
        let mut k: usize = 0;
        while k < self.population_size
            invariant
                k <= self.population_size,
                population@.len() == k,
                members_ok(population@, self.config),
                forall|i: int|
                    0 <= i < k ==> (#[trigger] population@[i]).fitness == 0 && population@[i]
                        .nodes@.len() == RANDOM_NODE_COUNT && population@[i].muscles@.len()
                        >= RANDOM_MUSCLE_COUNT,
            decreases self.population_size - k,
        {
            population.push(CreatureChromosome::random(&self.config));
            k += 1;
        }
        self.population = population;
    }

    /// Sorts the population by fitness, best first, and keeps exactly the
    /// best `population_size` individuals: truncation selection. No
    /// retained individual has lower fitness than any discarded one.
    fn selection(&mut self)
        ensures
            final(self).population@.len() == old(self).population_size,
            sorted_desc(final(self).population@),
            exists|dropped: Seq<CreatureChromosome>|
                old(self).population@.to_multiset() == final(self).population@.to_multiset().add(
                    dropped.to_multiset(),
                ) && (forall|i: int, j: int|
                    0 <= i < final(self).population@.len() && 0 <= j < dropped.len()
                        ==> (#[trigger] final(self).population@[i]).fitness
                        >= (#[trigger] dropped[j]).fitness),
            final(self).offspring_population@ == old(self).offspring_population@,
            final(self).new_population@ == old(self).new_population@,
            same_parameters(final(self), old(self)),
            final(self).current_generation == old(self).current_generation,
            final(self).current_unbeat_best == old(self).current_unbeat_best,
    {
        let ghost before = self.population@;
        sort_by_fitness_desc(&mut self.population);
        let ghost sorted = self.population@;
        let dropped = self.population.split_off(self.population_size);
        proof {
            vstd::seq_lib::lemma_multiset_commutative(self.population@, dropped@);
            assert(self.population@ + dropped@ =~= sorted);
            assert(before.to_multiset() == self.population@.to_multiset().add(
                dropped@.to_multiset(),
            ));
            assert forall|i: int, j: int|
                0 <= i < self.population@.len() && 0 <= j < dropped@.len() implies (
            #[trigger] self.population@[i]).fitness >= (#[trigger] dropped@[j]).fitness by {
                assert(self.population@[i] == sorted[i]);
                assert(dropped@[j] == sorted[self.population@.len() + j]);
            }
            assert forall|x: CreatureChromosome| #[trigger] self.population@.to_multiset().count(
                x,
            ) <= before.to_multiset().count(x) by {
                assert(before.to_multiset().count(x) == self.population@.to_multiset().count(x)
                    + dropped@.to_multiset().count(x));
            }
            lemma_members_ok_sub(self.population@, before, self.config);
        }
    }

    /// Partitions the population into consecutive pairs and breeds each
    /// pair into two offspring; every offspring is mutated and repaired, so
    /// each one satisfies the full structural invariant.
    #[verifier::loop_isolation(false)]
    fn reproduction(&mut self)
        ensures
            final(self).current_generation == old(self).current_generation + 1,
            final(self).offspring_population@.len() == old(self).population@.len(),
            forall|i: int|
                0 <= i < final(self).offspring_population@.len()
                    ==> (#[trigger] final(self).offspring_population@[i]).fitness == 0
                    && final(self).offspring_population@[i].is_correct_spec(old(self).config),
            forall|k: int|
                0 <= k < old(self).population@.len() / 2 ==> pair_bred(
                    #[trigger] final(self).offspring_population@.subrange(2 * k, 2 * k + 2),
                    old(self).population@[2 * k],
                    old(self).population@[2 * k + 1],
                ),
            final(self).population@ == old(self).population@,
            final(self).new_population@ == old(self).new_population@,
            same_parameters(final(self), old(self)),
            final(self).current_unbeat_best == old(self).current_unbeat_best,
    {
        self.current_generation = self.current_generation + 1;
        let mut offspring: Vec<CreatureChromosome> = Vec::new();
        let mut k: usize = 0;
        while k + 1 < self.population.len()
            invariant
                k % 2 == 0,
                k <= self.population@.len(),
                offspring@.len() == k,
                forall|i: int|
                    0 <= i < k ==> (#[trigger] offspring@[i]).fitness == 0 && offspring@[i]
                        .is_correct_spec(self.config),
                forall|j: int|
                    0 <= j < k / 2 ==> pair_bred(
                        #[trigger] offspring@.subrange(2 * j, 2 * j + 2),
                        self.population@[2 * j],
                        self.population@[2 * j + 1],
                    ),
            decreases self.population@.len() - k,
        {
            let (first_child, second_child) = self.population[k].breed(
                &self.population[k + 1],
                &self.config,
                self.crossover_chance,
            );
            let mut first_child = first_child.mutate(&self.config, self.mutation_chance);
            let mut second_child = second_child.mutate(&self.config, self.mutation_chance);
            first_child.correct(&self.config);
            second_child.correct(&self.config);
            let ghost before = offspring@;
            offspring.push(first_child);
            offspring.push(second_child);
            proof {
                assert(offspring@.subrange(0, before.len() as int) =~= before);
                assert(offspring@.subrange(before.len() as int, before.len() as int + 2)
                    =~= seq![first_child, second_child]);
                assert forall|j: int| 0 <= j < (k + 2) / 2 implies pair_bred(
                    #[trigger] offspring@.subrange(2 * j, 2 * j + 2),
                    self.population@[2 * j],
                    self.population@[2 * j + 1],
                ) by {
                    if j < k / 2 {
                        assert(offspring@.subrange(2 * j, 2 * j + 2) =~= before.subrange(
                            2 * j,
                            2 * j + 2,
                        ));
                    } else {
                        assert(offspring@.subrange(2 * j, 2 * j + 2) =~= seq![
                            first_child,
                            second_child,
                        ]);
                    }
                }
            }
            k += 2;
        }
        self.offspring_population = offspring;
    }

    /// Moves the accumulated evaluated individuals into the current
    /// population, clearing the accumulator.
    fn replacement(&mut self)
        ensures
            final(self).population@ == old(self).new_population@,
            final(self).new_population@.len() == 0,
            final(self).offspring_population@ == old(self).offspring_population@,
            same_parameters(final(self), old(self)),
            final(self).current_generation == old(self).current_generation,
            final(self).current_unbeat_best == old(self).current_unbeat_best,
    {
        self.population.clear();
        self.population.append(&mut self.new_population);
    }

    /// Records one evaluated individual; the best-ever fitness updates only
    /// on a strict improvement, so ties keep the earlier generation.
    fn finished_evaluating(&mut self, chromosome: CreatureChromosome)
        ensures
            final(self).new_population@ == old(self).new_population@.push(chromosome),
            final(self).current_unbeat_best == if chromosome.fitness > old(
                self,
            ).current_unbeat_best.0 {
                (chromosome.fitness, old(self).current_generation)
            } else {
                old(self).current_unbeat_best
            },
            final(self).population@ == old(self).population@,
            final(self).offspring_population@ == old(self).offspring_population@,
            same_parameters(final(self), old(self)),
            final(self).current_generation == old(self).current_generation,
    {
        if chromosome.fitness > self.current_unbeat_best.0 {
            self.current_unbeat_best = (chromosome.fitness, self.current_generation);
        }
        self.new_population.push(chromosome);
    }

    /// Every member of the awaited set has reported: the accumulator holds
    /// exactly the current population and its offspring, twice the
    /// configured size.
    fn all_have_finished_evaluating(&self) -> (r: bool)
        ensures
            r == (self.new_population@.len() == 2 * self.population_size),
    {
        self.new_population.len() == 2 * self.population_size
    }

    /// Summarizes the fitness of every evaluated individual of this cycle.
    fn save_results(&self, generation_count: usize) -> (r: Option<GenerationStats>)
        ensures
            summarizes(self.new_population@, generation_count, r),
    {
        compute_stats(&self.new_population, generation_count)
    }

    /// The current population concatenated with the freshly bred
    /// offspring: the full set the evaluator must score this cycle.
    #[verifier::loop_isolation(false)]
    fn get_population_for_sim(&self) -> (r: Vec<CreatureChromosome>)
        ensures
            r@.len() == self.population@.len() + self.offspring_population@.len(),
            forall|i: int| 0 <= i < self.population@.len() ==> same_creature(
                #[trigger] r@[i],
                self.population@[i],
            ),
            forall|i: int| 0 <= i < self.offspring_population@.len() ==> same_creature(
                #[trigger] r@[self.population@.len() + i],
                self.offspring_population@[i],
            ),
    {
        let mut r: Vec<CreatureChromosome> = Vec::new();
        let mut k: usize = 0;
        while k < self.population.len()
            invariant
                k <= self.population@.len(),
                r@.len() == k,
                forall|i: int| 0 <= i < k ==> same_creature(
                    #[trigger] r@[i],
                    self.population@[i],
                ),
            decreases self.population@.len() - k,
        {
            r.push(self.population[k].clone());
            k += 1;
        }
        let mut k: usize = 0;
        while k < self.offspring_population.len()
            invariant
                k <= self.offspring_population@.len(),
                r@.len() == self.population@.len() + k,
                forall|i: int| 0 <= i < self.population@.len() ==> same_creature(
                    #[trigger] r@[i],
                    self.population@[i],
                ),
                forall|i: int| 0 <= i < k ==> same_creature(
                    #[trigger] r@[self.population@.len() + i],
                    self.offspring_population@[i],
                ),
            decreases self.offspring_population@.len() - k,
        {
            r.push(self.offspring_population[k].clone());
            k += 1;
        }
        r
    }

    /// The run is over exactly when the generation counter has passed the
    /// maximum, or the generations since the best-ever fitness arrived
    /// exceed the no-improvement window; never earlier.
    fn get_should_end(&self) -> (r: bool)
        ensures
            r == (self.current_generation > self.max_generations || self.current_generation
                - self.current_unbeat_best.1 > self.max_no_improvement),
    {
        self.current_generation > self.max_generations || self.current_generation
            - self.current_unbeat_best.1 > self.max_no_improvement
    }
}

} // verus!
