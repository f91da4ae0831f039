//! The generation-cycle interface every population algorithm satisfies:
//! initialize, reproduce, await evaluation, replace, select, summarize,
//! and decide termination.
//!
//! The trait carries the preconditions shared by every implementor through
//! spec members; each implementation states its own, stronger
//! postconditions, so the driving loop working on a concrete algorithm sees
//! the exact contract.

use vstd::prelude::*;
use crate::config::{Config, FITNESS_LIMIT};
use crate::creature_chromosome::CreatureChromosome;
use crate::stats::GenerationStats;

verus! {

/// Every member of `s` carries a fitness within bounds and satisfies the
/// full structural invariant under `config`.
pub open spec fn members_ok(s: Seq<CreatureChromosome>, config: Config) -> bool {
    forall|i: int|
        0 <= i < s.len() ==> 0 <= (#[trigger] s[i]).fitness <= FITNESS_LIMIT && s[i]
            .is_correct_spec(config)
}

/// Whether two chromosome values describe the same creature: same fitness,
/// same internal clock, same nodes, same muscles.
pub open spec fn same_creature(a: CreatureChromosome, b: CreatureChromosome) -> bool {
    &&& a.fitness == b.fitness
    &&& a.internal_clock_size == b.internal_clock_size
    &&& a.nodes@ == b.nodes@
    &&& a.muscles@ == b.muscles@
}

/// Validity of members carries over to any list whose members all occur in
/// a valid list, counted with multiplicity.
pub proof fn lemma_members_ok_sub(
    part: Seq<CreatureChromosome>,
    whole: Seq<CreatureChromosome>,
    config: Config,
)
    requires
        members_ok(whole, config),
        forall|x: CreatureChromosome| #[trigger] part.to_multiset().count(x)
            <= whole.to_multiset().count(x),
    ensures
        members_ok(part, config),
{
    broadcast use vstd::seq_lib::group_to_multiset_ensures;

    assert forall|i: int| 0 <= i < part.len() implies 0 <= (#[trigger] part[i]).fitness
        <= FITNESS_LIMIT && part[i].is_correct_spec(config) by {
        let c = part[i];
        assert(part.contains(c));
        assert(part.to_multiset().count(c) > 0);
        assert(whole.to_multiset().count(c) > 0);
        assert(whole.contains(c));
        let j = choose|j: int| 0 <= j < whole.len() && whole[j] == c;
        assert(members_ok(whole, config));
        assert(0 <= whole[j].fitness <= FITNESS_LIMIT && whole[j].is_correct_spec(config));
    }
}

/// A population algorithm driven through one full generation cycle per
/// step: reproduce, hand the population out for evaluation, collect every
/// fitness report, summarize, replace, select, and decide termination.
pub trait Runnable: Sized {
    /// The well-formedness every operation preserves: configuration and
    /// parameters are sane and every held individual is structurally valid.
    spec fn wf(&self) -> bool;

    /// What selection asks of the current state.
    spec fn selection_req(&self) -> bool;

    /// What reproduction asks of the current state.
    spec fn reproduction_req(&self) -> bool;

    /// What collecting one evaluated individual asks of it.
    spec fn finished_req(&self, chromosome: &CreatureChromosome) -> bool;

    /// Clears the run state and creates the starting population of random
    /// individuals.
    fn initialize_population(&mut self)
        requires
            old(self).wf(),
        ensures
            final(self).wf(),
    ;

    /// Keeps the best `population_size` individuals of the current
    /// population, by fitness, and discards the rest.
    fn selection(&mut self)
        requires
            old(self).wf(),
            old(self).selection_req(),
        ensures
            final(self).wf(),
    ;

    /// Breeds the current population pairwise into the offspring
    /// population; every offspring is mutated and repaired before it is
    /// added.
    fn reproduction(&mut self)
        requires
            old(self).wf(),
            old(self).reproduction_req(),
        ensures
            final(self).wf(),
    ;

    /// Moves the accumulated evaluated individuals into the current
    /// population.
    fn replacement(&mut self)
        requires
            old(self).wf(),
        ensures
            final(self).wf(),
    ;

    /// Records one evaluated individual and its fitness report.
    fn finished_evaluating(&mut self, chromosome: CreatureChromosome)
        requires
            old(self).wf(),
            old(self).finished_req(&chromosome),
        ensures
            final(self).wf(),
    ;

    /// Whether every individual of the awaited set has reported a fitness.
    fn all_have_finished_evaluating(&self) -> bool
        requires
            self.wf(),
    ;

    /// Summarizes the evaluated population of this cycle; the caller
    /// persists the record. An empty evaluated population has no summary.
    fn save_results(&self, generation_count: usize) -> Option<GenerationStats>
        requires
            self.wf(),
    ;

    /// The full set the external evaluator must score this cycle: the
    /// current population together with the freshly bred offspring.
    fn get_population_for_sim(&self) -> Vec<CreatureChromosome>
        requires
            self.wf(),
    ;

    /// Whether the run is over: the generation counter passed the maximum,
    /// or the best fitness has not improved for too long.
    fn get_should_end(&self) -> bool
        requires
            self.wf(),
    ;
}

} // verus!
