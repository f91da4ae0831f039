//! The species-based algorithm: the population lives in buckets keyed by a
//! classification characteristic (node count), and a species that stagnates
//! too long is bred against the global fitness ranking instead of within
//! itself.

use vstd::prelude::*;
use vstd::multiset::Multiset;
use crate::config::{Config, FITNESS_LIMIT, UNIT};
use crate::creature_chromosome::{CreatureChromosome, RANDOM_MUSCLE_COUNT, RANDOM_NODE_COUNT};
use crate::operations::{Breedable, Correctable, Mutable, RandomCreatable, Selective};
use crate::ranking::{sort_by_fitness_desc, sorted_desc};
use crate::runner::{lemma_members_ok_sub, members_ok, same_creature, Runnable};
use crate::stats::{compute_stats, summarizes, GenerationStats, MAX_POPULATION};

verus! {

broadcast use vstd::seq_lib::group_to_multiset_ensures;

/// One species: the chromosomes sharing a classification key, in insertion
/// order.
pub struct Species {
    /// The classification key every member shares (its node count).
    pub key: usize,
    /// The members of the species.
    pub members: Vec<CreatureChromosome>,
}

/// The stagnation record of one species: its recorded best fitness and how
/// many generations have passed without enough improvement.
#[derive(Clone, Copy, Debug, PartialEq, Eq, Structural)]
pub struct SpeciesBest {
    /// The species key the record belongs to.
    pub key: usize,
    /// Best fitness recorded for the species, in thousandths.
    pub best_fitness: i64,
    /// Generations since the record last improved.
    pub stagnation: usize,
}

/// The multiset of all chromosomes held across the species buckets.
pub open spec fn species_multiset(s: Seq<Species>) -> Multiset<CreatureChromosome>
    decreases s.len(),
{
    if s.len() == 0 {
        Multiset::empty()
    } else {
        s.first().members@.to_multiset().add(species_multiset(s.drop_first()))
    }
}

/// All chromosomes held across the species buckets, in bucket order.
pub open spec fn flat_members(s: Seq<Species>) -> Seq<CreatureChromosome>
    decreases s.len(),
{
    if s.len() == 0 {
        Seq::empty()
    } else {
        s.first().members@ + flat_members(s.drop_first())
    }
}

/// Appending one bucket appends its members to the flattened sequence.
proof fn lemma_flat_members_push(s: Seq<Species>, sp: Species)
    ensures
        flat_members(s.push(sp)) == flat_members(s) + sp.members@,
    decreases s.len(),
{
    let sp2 = s.push(sp);
    if s.len() == 0 {
        assert(sp2.drop_first() =~= Seq::<Species>::empty());
        assert(flat_members(sp2.drop_first()) == Seq::<CreatureChromosome>::empty());
        assert(sp2.first() == sp);
        assert(flat_members(sp2) == sp.members@ + Seq::<CreatureChromosome>::empty());
        assert(flat_members(s) == Seq::<CreatureChromosome>::empty());
        assert(sp.members@ + Seq::<CreatureChromosome>::empty() =~= Seq::<
            CreatureChromosome,
        >::empty() + sp.members@);
    } else {
        assert(sp2.drop_first() =~= s.drop_first().push(sp));
        lemma_flat_members_push(s.drop_first(), sp);
        assert(sp2.first() == s.first());
        assert(s.first().members@ + (flat_members(s.drop_first()) + sp.members@) =~= (s.first()
            .members@ + flat_members(s.drop_first())) + sp.members@);
    }
}

/// The flattened sequence holds exactly as many chromosomes as the
/// combined multiset.
pub proof fn lemma_flat_members_len(s: Seq<Species>)
    ensures
        flat_members(s).len() == species_multiset(s).len(),
    decreases s.len(),
{
    if s.len() > 0 {
        lemma_flat_members_len(s.drop_first());
        s.first().members@.to_multiset_ensures();
    }
}

/// Structural sanity of the buckets: no empty species, unique keys, every
/// member keyed by its own characteristic and structurally valid.
pub open spec fn species_wf(s: Seq<Species>, config: Config) -> bool {
    &&& forall|i: int| 0 <= i < s.len() ==> (#[trigger] s[i]).members@.len() > 0
    &&& forall|i: int, j: int| 0 <= i < j < s.len() ==> s[i].key != s[j].key
    &&& forall|i: int| 0 <= i < s.len() ==> members_ok((#[trigger] s[i]).members@, config)
    &&& forall|i: int, m: int|
        0 <= i < s.len() && 0 <= m < s[i].members@.len()
            ==> (#[trigger] s[i].members@[m]).nodes@.len() == s[i].key
}

/// Whether `c` describes the same creature as some current member of the
/// species buckets.
pub open spec fn from_population(s: Seq<Species>, c: CreatureChromosome) -> bool {
    exists|si: int, m: int|
        0 <= si < s.len() && 0 <= m < s[si].members@.len() && same_creature(
            c,
            #[trigger] s[si].members@[m],
        )
}

/// Whether some current member of the species buckets has exactly `n`
/// nodes.
pub open spec fn is_member_node_count(s: Seq<Species>, n: int) -> bool {
    exists|si: int, m: int|
        0 <= si < s.len() && 0 <= m < s[si].members@.len() && (#[trigger] s[si].members@[m])
            .nodes@.len() == n
}

/// What one breeding can produce from two current members: crossover gives
/// a child the shorter parent's node count, structural mutation moves it by
/// at most one, and repair never changes it.
pub open spec fn bred_from_members(s: Seq<Species>, child: CreatureChromosome) -> bool {
    exists|n1: int, n2: int|
        #![trigger is_member_node_count(s, n1), is_member_node_count(s, n2)]
        {
            &&& is_member_node_count(s, n1)
            &&& is_member_node_count(s, n2)
            &&& vstd::math::min(n1, n2) - 1 <= child.nodes@.len() <= vstd::math::min(n1, n2) + 1
        }
}

/// Whether some species of `s` carries the key `k`.
pub open spec fn species_has_key(s: Seq<Species>, k: usize) -> bool {
    exists|i: int| 0 <= i < s.len() && (#[trigger] s[i]).key == k
}

/// Whether the stagnation table holds a record for `key`.
pub open spec fn has_key(t: Seq<SpeciesBest>, key: usize) -> bool {
    exists|i: int| 0 <= i < t.len() && (#[trigger] t[i]).key == key
}

/// The record for `key`; meaningful when the table holds one and keys are
/// unique.
pub open spec fn record_for(t: Seq<SpeciesBest>, key: usize) -> SpeciesBest {
    t[choose|i: int| 0 <= i < t.len() && (#[trigger] t[i]).key == key]
}

/// The table keys are unique.
pub open spec fn table_keys_unique(t: Seq<SpeciesBest>) -> bool {
    forall|i: int, j: int| 0 <= i < j < t.len() ==> t[i].key != t[j].key
}

/// Whether the recorded stagnation counter of `key` exceeds the configured
/// threshold, so the species must outbreed next.
pub open spec fn stagnant_key(t: Seq<SpeciesBest>, key: usize, config: Config) -> bool {
    has_key(t, key) && record_for(t, key).stagnation > config.max_unchanged_generations
}

/// The two tables agree about `key`: both lack it or both record the same.
pub open spec fn records_match(a: Seq<SpeciesBest>, b: Seq<SpeciesBest>, key: usize) -> bool {
    &&& (has_key(a, key) <==> has_key(b, key))
    &&& (has_key(a, key) ==> record_for(a, key) == record_for(b, key))
}

/// What one reproduction does to the stagnation record of a species with
/// key `key` whose best fitness this generation is `cur_best`: a species
/// already marked stagnant keeps its record; a species without a record
/// gets a fresh one; a species that improved by more than the threshold
/// resets its counter and records the new best; any other species keeps its
/// recorded best and counts one more unchanged generation.
pub open spec fn stagnation_updated(
    old_t: Seq<SpeciesBest>,
    new_t: Seq<SpeciesBest>,
    key: usize,
    cur_best: i64,
    config: Config,
) -> bool {
    if stagnant_key(old_t, key, config) {
        records_match(old_t, new_t, key)
    } else if !has_key(old_t, key) {
        has_key(new_t, key) && record_for(new_t, key) == (SpeciesBest {
            key,
            best_fitness: cur_best,
            stagnation: 0,
        })
    } else if cur_best > record_for(old_t, key).best_fitness + config.improvement_threshold {
        has_key(new_t, key) && record_for(new_t, key) == (SpeciesBest {
            key,
            best_fitness: cur_best,
            stagnation: 0,
        })
    } else {
        has_key(new_t, key) && record_for(new_t, key) == (SpeciesBest {
            key,
            best_fitness: record_for(old_t, key).best_fitness,
            stagnation: (record_for(old_t, key).stagnation + 1) as usize,
        })
    }
}

/// The best fitness among the members, the species' score this generation.
pub open spec fn best_fitness_of(s: Seq<CreatureChromosome>) -> i64
    decreases s.len(),
{
    if s.len() <= 1 {
        if s.len() == 0 {
            0i64
        } else {
            s[0].fitness
        }
    } else if best_fitness_of(s.drop_last()) >= s.last().fitness {
        best_fitness_of(s.drop_last())
    } else {
        s.last().fitness
    }
}

/// A later table that agrees with an earlier one about a key keeps every
/// bookkeeping fact about that key.
proof fn lemma_stagnation_updated_stable(
    old_t: Seq<SpeciesBest>,
    t1: Seq<SpeciesBest>,
    t2: Seq<SpeciesBest>,
    key: usize,
    cur_best: i64,
    config: Config,
)
    requires
        stagnation_updated(old_t, t1, key, cur_best, config),
        records_match(t1, t2, key),
    ensures
        stagnation_updated(old_t, t2, key, cur_best, config),
{
}

/// Adding one member to a bucket adds it to the combined multiset.
proof fn lemma_species_multiset_update(s: Seq<Species>, i: int, sp: Species, c: CreatureChromosome)
    requires
        0 <= i < s.len(),
        sp.members@.to_multiset() == s[i].members@.to_multiset().insert(c),
    ensures
        species_multiset(s.update(i, sp)) == species_multiset(s).insert(c),
    decreases s.len(),
{
    let su = s.update(i, sp);
    if i == 0 {
        assert(su.drop_first() =~= s.drop_first());
        assert(su.first() == sp);
        assert(sp.members@.to_multiset().add(species_multiset(s.drop_first())) =~= s.first()
            .members@.to_multiset().add(species_multiset(s.drop_first())).insert(c));
    } else {
        assert(su.drop_first() =~= s.drop_first().update(i - 1, sp));
        lemma_species_multiset_update(s.drop_first(), i - 1, sp, c);
        assert(su.first() == s.first());
        assert(s.first().members@.to_multiset().add(
            species_multiset(s.drop_first()).insert(c),
        ) =~= s.first().members@.to_multiset().add(species_multiset(s.drop_first())).insert(c));
    }
}

/// Appending one bucket appends its members to the combined multiset.
proof fn lemma_species_multiset_push(s: Seq<Species>, sp: Species)
    ensures
        species_multiset(s.push(sp)) == species_multiset(s).add(sp.members@.to_multiset()),
    decreases s.len(),
{
    let sp2 = s.push(sp);
    if s.len() == 0 {
        assert(sp2.drop_first() =~= Seq::<Species>::empty());
        assert(species_multiset(sp2.drop_first()) == Multiset::<CreatureChromosome>::empty());
        assert(sp2.first() == sp);
        assert(species_multiset(sp2) == sp.members@.to_multiset().add(
            Multiset::<CreatureChromosome>::empty(),
        ));
        assert(species_multiset(sp2) =~= species_multiset(s).add(sp.members@.to_multiset()));
    } else {
        assert(sp2.drop_first() =~= s.drop_first().push(sp));
        lemma_species_multiset_push(s.drop_first(), sp);
        assert(sp2.first() == s.first());
        assert(s.first().members@.to_multiset().add(
            species_multiset(s.drop_first()).add(sp.members@.to_multiset()),
        ) =~= s.first().members@.to_multiset().add(species_multiset(s.drop_first())).add(
            sp.members@.to_multiset(),
        ));
    }
}

/// No species is larger than the whole population.
proof fn lemma_species_size_le_total(s: Seq<Species>, i: int)
    requires
        0 <= i < s.len(),
    ensures
        s[i].members@.len() <= species_multiset(s).len(),
    decreases s.len(),
{
    if i == 0 {
        assert(species_multiset(s).len() == s.first().members@.to_multiset().len()
            + species_multiset(s.drop_first()).len());
        s.first().members@.to_multiset_ensures();
    } else {
        lemma_species_size_le_total(s.drop_first(), i - 1);
        assert(s.drop_first()[i - 1] == s[i]);
    }
}

/// Every member of every bucket is a member of the combined multiset.
proof fn lemma_species_members_in_multiset(s: Seq<Species>, i: int, m: int)
    requires
        0 <= i < s.len(),
        0 <= m < s[i].members@.len(),
    ensures
        species_multiset(s).count(s[i].members@[m]) > 0,
    decreases s.len(),
{
    if i == 0 {
        assert(s.first().members@.contains(s[i].members@[m]));
        assert(s.first().members@.to_multiset().count(s[i].members@[m]) > 0);
    } else {
        lemma_species_members_in_multiset(s.drop_first(), i - 1, m);
        assert(s.drop_first()[i - 1] == s[i]);
    }
}

/// Groups the given individuals into species by their classification key,
/// keeping the order in which keys first appear and, inside a bucket, the
/// order of arrival. No individual is lost or invented.
#[verifier::loop_isolation(false)]
#[verifier::rlimit(50)]
fn bucket_individuals(list: Vec<CreatureChromosome>, Ghost(config): Ghost<Config>) -> (r: Vec<
    Species,
>)
    requires
        members_ok(list@, config),
    ensures
        species_wf(r@, config),
        species_multiset(r@) == list@.to_multiset(),
        species_multiset(r@).len() == list@.len(),
        forall|si: int, m: int|
            0 <= si < r@.len() && 0 <= m < r@[si].members@.len() ==> list@.contains(
                #[trigger] r@[si].members@[m],
            ),
{
    let mut list = list;
    let ghost list0 = list@;
    let mut buckets: Vec<Species> = Vec::new();
    proof {
        list@.to_multiset_ensures();
    }
    while list.len() > 0
        invariant
            members_ok(list@, config),
            species_wf(buckets@, config),
            species_multiset(buckets@).add(list@.to_multiset()) == list0.to_multiset(),
            species_multiset(buckets@).len() + list@.len() == list0.len(),
        decreases list@.len(),
    {
        let c = list.remove(0);
        proof {
            list@.to_multiset_ensures();
        }
        let key = c.characteristic();
        let mut idx: usize = 0;
        let mut found = false;
        while idx < buckets.len() && !found
            invariant
                idx <= buckets@.len(),
                found ==> idx < buckets@.len() && buckets@[idx as int].key == key,
                !found ==> forall|i: int| 0 <= i < idx ==> (#[trigger] buckets@[i]).key != key,
            decreases buckets@.len() - idx, if found { 0int } else { 1int },
        {
            if buckets[idx].key == key {
                found = true;
            } else {
                idx += 1;
            }
        }
        if found {
            let ghost before = buckets@;
            let mut sp = buckets.remove(idx);
            let ghost sp0 = sp;
            sp.members.push(c);
            buckets.insert(idx, sp);
            proof {
                assert(buckets@ =~= before.update(idx as int, sp));
                assert(sp.members@ == sp0.members@.push(c));
                lemma_species_multiset_update(before, idx as int, sp, c);
                let bv = buckets@;
                assert(forall|i: int|
                    0 <= i < bv.len() && i != idx ==> #[trigger] bv[i] == before[i]);
                assert(bv[idx as int] == sp);
                assert forall|i: int| 0 <= i < bv.len() implies members_ok(
                    (#[trigger] bv[i]).members@,
                    config,
                ) by {
                    if i == idx {
                        assert forall|m: int| 0 <= m < sp.members@.len() implies 0 <= (
                        #[trigger] sp.members@[m]).fitness <= crate::config::FITNESS_LIMIT
                            && sp.members@[m].is_correct_spec(config) by {
                            if m < sp0.members@.len() {
                                assert(sp.members@[m] == sp0.members@[m]);
                            } else {
                                assert(sp.members@[m] == c);
                            }
                        }
                    }
                }
                assert forall|i: int, m: int|
                    0 <= i < bv.len() && 0 <= m < bv[i].members@.len() implies (
                #[trigger] bv[i].members@[m]).nodes@.len() == bv[i].key by {
                    if i == idx {
                        if m < sp0.members@.len() {
                            assert(sp.members@[m] == sp0.members@[m]);
                        } else {
                            assert(sp.members@[m] == c);
                        }
                    }
                }
            }
        } else {
            let ghost before = buckets@;
            let mut members: Vec<CreatureChromosome> = Vec::new();
            members.push(c);
            buckets.push(Species { key, members });
            proof {
                assert(members@ =~= seq![c]);
                assert(members@.to_multiset() =~= Multiset::empty().insert(c));
                lemma_species_multiset_push(before, Species { key, members });
                assert(species_multiset(buckets@) =~= species_multiset(before).insert(c));
                let bv = buckets@;
                assert(forall|i: int| 0 <= i < before.len() ==> #[trigger] bv[i] == before[i]);
                assert(bv[before.len() as int] == (Species { key, members }));
                assert(members@[0] == c);
            }
        }
    }
    proof {
        assert(list@.to_multiset() =~= Multiset::empty());
        assert(species_multiset(buckets@).add(list@.to_multiset()) =~= species_multiset(
            buckets@,
        ));
        list0.to_multiset_ensures();
        assert forall|si: int, m: int|
            0 <= si < buckets@.len() && 0 <= m < buckets@[si].members@.len() implies list0
            .contains(#[trigger] buckets@[si].members@[m]) by {
            lemma_species_members_in_multiset(buckets@, si, m);
            assert(list0.to_multiset().count(buckets@[si].members@[m]) > 0);
        }
    }
    buckets
}

/// The state of a species-based run.
pub struct SpeciesBasedAlgorithm {
    /// The current population, bucketed into species.
    pub population: Vec<Species>,
    /// The offspring bred from the current population, awaiting evaluation.
    pub offspring_population: Vec<CreatureChromosome>,
    /// The stagnation record of each species seen so far.
    pub previous_best_by_species: Vec<SpeciesBest>,
    /// Evaluated individuals accumulated during the current cycle.
    pub new_population: Vec<CreatureChromosome>,
    /// The configuration injected at construction.
    pub config: Config,
    /// Generations after which the run ends regardless of progress.
    pub max_generations: usize,
    /// Generations without improvement after which the run ends.
    pub max_no_improvement: usize,
    /// Best fitness ever reported, with the generation it arrived in.
    pub current_unbeat_best: (i64, usize),
    /// How many reproductions have happened.
    pub current_generation: usize,
    /// Chance governing each mutation coin, in thousandths.
    pub mutation_chance: i64,
    /// Chance governing each crossover coin, in thousandths.
    pub crossover_chance: i64,
    /// How many individuals survive selection.
    pub population_size: usize,
}

impl SpeciesBasedAlgorithm {
    /// A fresh run with the given parameters and no species yet.
    pub fn new(
        config: Config,
        population_size: usize,
        max_generations: usize,
        max_no_improvement: usize,
        mutation_chance: i64,
        crossover_chance: i64,
    ) -> (r: SpeciesBasedAlgorithm)
        requires
            config.wf(),
            0 < population_size,
            population_size % 2 == 0,
            population_size <= MAX_POPULATION / 2,
            max_generations <= usize::MAX - 2,
            0 <= mutation_chance <= UNIT,
            0 <= crossover_chance <= UNIT,
        ensures
            r.wf(),
            r.population@.len() == 0,
            r.offspring_population@.len() == 0,
            r.new_population@.len() == 0,
            r.previous_best_by_species@.len() == 0,
            r.config == config,
            r.population_size == population_size,
            r.max_generations == max_generations,
            r.max_no_improvement == max_no_improvement,
            r.mutation_chance == mutation_chance,
            r.crossover_chance == crossover_chance,
            r.current_generation == 0,
    {
        SpeciesBasedAlgorithm {
            population: Vec::new(),
            offspring_population: Vec::new(),
            previous_best_by_species: Vec::new(),
            new_population: Vec::new(),
            config,
            max_generations,
            max_no_improvement,
            current_unbeat_best: (i64::MIN, 0),
            current_generation: 0,
            mutation_chance,
            crossover_chance,
            population_size,
        }
    }

    /// Every chromosome of every species, copied out and sorted by fitness,
    /// best first: the global ranking used for outbreeding.
    #[verifier::loop_isolation(false)]
    fn global_ranking(&self) -> (r: Vec<CreatureChromosome>)
        requires
            species_wf(self.population@, self.config),
        ensures
            r@.len() == species_multiset(self.population@).len(),
            members_ok(r@, self.config),
            sorted_desc(r@),
            forall|j: int| 0 <= j < r@.len() ==> from_population(
                self.population@,
                #[trigger] r@[j],
            ),
    {
        let mut flat: Vec<CreatureChromosome> = Vec::new();
        let mut i: usize = 0;
        while i < self.population.len()
            invariant
                i <= self.population@.len(),
                flat@.len() == species_multiset(self.population@.subrange(0, i as int)).len(),
                members_ok(flat@, self.config),
                forall|j: int| 0 <= j < flat@.len() ==> from_population(
                    self.population@,
                    #[trigger] flat@[j],
                ),
            decreases self.population@.len() - i,
        {
            let mut m: usize = 0;
            while m < self.population[i].members.len()
                invariant
                    i < self.population@.len(),
                    m <= self.population@[i as int].members@.len(),
                    flat@.len() == species_multiset(self.population@.subrange(0, i as int)).len()
                        + m,
                    members_ok(flat@, self.config),
                    forall|j: int| 0 <= j < flat@.len() ==> from_population(
                        self.population@,
                        #[trigger] flat@[j],
                    ),
                decreases self.population@[i as int].members@.len() - m,
            {
                flat.push(self.population[i].members[m].clone());
                m += 1;
            }
            proof {
                assert(self.population@.subrange(0, i + 1) =~= self.population@.subrange(
                    0,
                    i as int,
                ).push(self.population@[i as int]));
                lemma_species_multiset_push(
                    self.population@.subrange(0, i as int),
                    self.population@[i as int],
                );
                self.population@[i as int].members@.to_multiset_ensures();
            }
            i += 1;
        }
        proof {
            assert(self.population@.subrange(0, self.population@.len() as int)
                =~= self.population@);
        }
        let ghost pre_sort = flat@;
        sort_by_fitness_desc(&mut flat);
        proof {
            broadcast use vstd::seq_lib::group_to_multiset_ensures;

            assert(forall|x: CreatureChromosome| #[trigger] flat@.to_multiset().count(x)
                <= pre_sort.to_multiset().count(x));
            lemma_members_ok_sub(flat@, pre_sort, self.config);
            assert forall|j: int| 0 <= j < flat@.len() implies from_population(
                self.population@,
                #[trigger] flat@[j],
            ) by {
                let c = flat@[j];
                assert(flat@.contains(c));
                assert(flat@.to_multiset().count(c) > 0);
                assert(pre_sort.to_multiset().count(c) > 0);
                assert(pre_sort.contains(c));
                let w = choose|w: int| 0 <= w < pre_sort.len() && pre_sort[w] == c;
                assert(from_population(self.population@, pre_sort[w]));
            }
        }
        flat
    }

    /// The breeding plan of one species. A stagnant species takes each
    /// partner from the globally fitness-ranked population instead of from
    /// within itself — deliberate outbreeding to escape a local optimum —
    /// while any other species pairs its members in consecutive pairs. A
    /// species with an odd member count breeds its leftover last member
    /// against the ranked individual at the species' last position, so no
    /// genetic material is discarded.
    #[verifier::loop_isolation(false)]
    pub fn breeding_pairs(
        species: &Species,
        ranked: &Vec<CreatureChromosome>,
        stagnant: bool,
    ) -> (pairs: Vec<(CreatureChromosome, CreatureChromosome)>)
        requires
            species.members@.len() <= ranked@.len(),
        ensures
            pairs@.len() == species.members@.len() / 2 + species.members@.len() % 2,
            stagnant ==> forall|k: int|
                0 <= k < species.members@.len() / 2 ==> same_creature(
                    (#[trigger] pairs@[k]).0,
                    species.members@[k],
                ) && same_creature(pairs@[k].1, ranked@[k]),
            !stagnant ==> forall|k: int|
                0 <= k < species.members@.len() / 2 ==> same_creature(
                    (#[trigger] pairs@[k]).0,
                    species.members@[2 * k],
                ) && same_creature(pairs@[k].1, species.members@[2 * k + 1]),
            species.members@.len() % 2 == 1 ==> same_creature(
                pairs@.last().0,
                species.members@.last(),
            ) && same_creature(pairs@.last().1, ranked@[species.members@.len() - 1]),
    {
        let mut pairs: Vec<(CreatureChromosome, CreatureChromosome)> = Vec::new();
        let count = species.members.len() / 2;
        let mut k: usize = 0;
        while k < count
            invariant
                k <= count,
                pairs@.len() == k,
                stagnant ==> forall|j: int|
                    0 <= j < k ==> same_creature(
                        (#[trigger] pairs@[j]).0,
                        species.members@[j],
                    ) && same_creature(pairs@[j].1, ranked@[j]),
                !stagnant ==> forall|j: int|
                    0 <= j < k ==> same_creature(
                        (#[trigger] pairs@[j]).0,
                        species.members@[2 * j],
                    ) && same_creature(pairs@[j].1, species.members@[2 * j + 1]),
            decreases count - k,
        {
            if stagnant {
                pairs.push((species.members[k].clone(), ranked[k].clone()));
            } else {
                pairs.push((species.members[2 * k].clone(), species.members[2 * k + 1].clone()));
            }
            k += 1;
        }
        if species.members.len() % 2 == 1 {
            pairs.push((
                species.members[species.members.len() - 1].clone(),
                ranked[species.members.len() - 1].clone(),
            ));
        }
        pairs
    }

    /// Breeds one pair of parents into two offspring, each mutated and
    /// repaired before it joins the offspring list.
    #[verifier::loop_isolation(false)]
    fn produce_children(
        first_parent: &CreatureChromosome,
        second_parent: &CreatureChromosome,
        offspring_population: &mut Vec<CreatureChromosome>,
        config: &Config,
        mutation_chance: i64,
        crossover_chance: i64,
    )
        requires
            config.wf(),
            0 <= mutation_chance <= UNIT,
            0 <= crossover_chance <= UNIT,
            first_parent.is_correct_spec(*config),
            second_parent.is_correct_spec(*config),
        ensures
            final(offspring_population)@.len() == old(offspring_population)@.len() + 2,
            forall|i: int| 0 <= i < old(offspring_population)@.len() ==> #[trigger] final(offspring_population)@[i] == old(offspring_population)@[i],
            forall|i: int|
                old(offspring_population)@.len() <= i < final(offspring_population)@.len()
                    ==> (#[trigger] final(offspring_population)@[i]).fitness == 0 && final(offspring_population)@[i].is_correct_spec(*config),
            forall|i: int|
                old(offspring_population)@.len() <= i < final(offspring_population)@.len()
                    ==> vstd::math::min(
                    first_parent.nodes@.len() as int,
                    second_parent.nodes@.len() as int,
                ) - 1 <= (#[trigger] final(offspring_population)@[i]).nodes@.len()
                    <= vstd::math::min(
                    first_parent.nodes@.len() as int,
                    second_parent.nodes@.len() as int,
                ) + 1,
    {
        let (first_child, second_child) = first_parent.breed(
            second_parent,
            config,
            crossover_chance,
        );
        let mut first_child = first_child.mutate(config, mutation_chance);
        let mut second_child = second_child.mutate(config, mutation_chance);
        first_child.correct(config);
        second_child.correct(config);
        offspring_population.push(first_child);
        offspring_population.push(second_child);
    }

    /// Looks a species key up in the stagnation table.
    #[verifier::loop_isolation(false)]
    fn find_record(&self, key: usize) -> (r: Option<SpeciesBest>)
        requires
            table_keys_unique(self.previous_best_by_species@),
        ensures
            r is Some <==> has_key(self.previous_best_by_species@, key),
            r matches Some(rec) ==> rec == record_for(self.previous_best_by_species@, key)
                && rec.key == key,
    {
        let mut i: usize = 0;
        while i < self.previous_best_by_species.len()
            invariant
                i <= self.previous_best_by_species@.len(),
                forall|j: int| 0 <= j < i ==> (#[trigger] self.previous_best_by_species@[j]).key
                    != key,
            decreases self.previous_best_by_species@.len() - i,
        {
            if self.previous_best_by_species[i].key == key {
                proof {
                    let w = choose|w: int|
                        0 <= w < self.previous_best_by_species@.len() && (
                        #[trigger] self.previous_best_by_species@[w]).key == key;
                    assert(w == i);
                }
                return Some(self.previous_best_by_species[i]);
            }
            i += 1;
        }
        None
    }

    /// Writes the record for its key, replacing an earlier one.
    #[verifier::loop_isolation(false)]
    fn put_record(&mut self, rec: SpeciesBest)
        requires
            table_keys_unique(old(self).previous_best_by_species@),
        ensures
            table_keys_unique(final(self).previous_best_by_species@),
            has_key(final(self).previous_best_by_species@, rec.key),
            record_for(final(self).previous_best_by_species@, rec.key) == rec,
            forall|k: usize|
                k != rec.key ==> records_match(
                    old(self).previous_best_by_species@,
                    final(self).previous_best_by_species@,
                    k,
                ),
            forall|j: int|
                0 <= j < final(self).previous_best_by_species@.len()
                    ==> #[trigger] final(self).previous_best_by_species@[j] == rec || old(
                    self,
                ).previous_best_by_species@.contains(final(self).previous_best_by_species@[j]),
            final(self).population@ == old(self).population@,
            final(self).offspring_population@ == old(self).offspring_population@,
            final(self).new_population@ == old(self).new_population@,
            final(self).config == old(self).config,
            final(self).max_generations == old(self).max_generations,
            final(self).max_no_improvement == old(self).max_no_improvement,
            final(self).current_unbeat_best == old(self).current_unbeat_best,
            final(self).current_generation == old(self).current_generation,
            final(self).mutation_chance == old(self).mutation_chance,
            final(self).crossover_chance == old(self).crossover_chance,
            final(self).population_size == old(self).population_size,
    {
        let ghost before = self.previous_best_by_species@;
        let n = self.previous_best_by_species.len();
        let mut i: usize = 0;
        let mut found_at: usize = n;
        while i < n
            invariant
                i <= n,
                found_at == n || (found_at < n && before[found_at as int].key == rec.key),
                found_at == n ==> forall|j: int| 0 <= j < i ==> (#[trigger] before[j]).key
                    != rec.key,
            decreases n - i,
        {
            if self.previous_best_by_species[i].key == rec.key {
                found_at = i;
                i = n;
            } else {
                i += 1;
            }
        }
        if found_at < n {
            self.previous_best_by_species.set(found_at, rec);
            proof {
                let after = self.previous_best_by_species@;
                assert(after == before.update(found_at as int, rec));
                assert(after[found_at as int] == rec);
                assert forall|k: usize| k != rec.key implies records_match(before, after, k) by {
                    if has_key(before, k) {
                        let w = choose|w: int|
                            0 <= w < before.len() && (#[trigger] before[w]).key == k;
                        assert(w != found_at);
                        assert(after[w].key == k);
                        assert(has_key(after, k));
                        let w2 = choose|w2: int|
                            0 <= w2 < after.len() && (#[trigger] after[w2]).key == k;
                        assert(w2 != found_at);
                        assert(before[w2] == after[w2]);
                        assert(w2 == w);
                    } else {
                        if has_key(after, k) {
                            let w = choose|w: int|
                                0 <= w < after.len() && (#[trigger] after[w]).key == k;
                            assert(before[w].key == k);
                        }
                    }
                }
                assert(has_key(after, rec.key));
                let w = choose|w: int|
                    0 <= w < after.len() && (#[trigger] after[w]).key == rec.key;
                assert(w == found_at);
            }
        } else {
            self.previous_best_by_species.push(rec);
            proof {
                let after = self.previous_best_by_species@;
                assert(after == before.push(rec));
                assert(after[before.len() as int] == rec);
                assert(has_key(after, rec.key));
                assert forall|j: int| 0 <= j < after.len() implies #[trigger] after[j] == rec
                    || before.contains(after[j]) by {
                    if j < before.len() {
                        assert(before[j] == after[j]);
                        assert(before.contains(after[j]));
                    }
                }
                assert forall|k: usize| k != rec.key implies records_match(before, after, k) by {
                    if has_key(before, k) {
                        let w = choose|w: int|
                            0 <= w < before.len() && (#[trigger] before[w]).key == k;
                        assert(after[w].key == k);
                        assert(has_key(after, k));
                        let w2 = choose|w2: int|
                            0 <= w2 < after.len() && (#[trigger] after[w2]).key == k;
                        assert(w2 != before.len());
                        assert(before[w2] == after[w2]);
                        assert(w2 == w);
                    } else {
                        if has_key(after, k) {
                            let w = choose|w: int|
                                0 <= w < after.len() && (#[trigger] after[w]).key == k;
                            assert(w < before.len());
                            assert(before[w].key == k);
                        }
                    }
                }
                let w = choose|w: int|
                    0 <= w < after.len() && (#[trigger] after[w]).key == rec.key;
                assert(after[w] == rec) by {
                    if w < before.len() {
                        assert(before[w].key == rec.key);
                    }
                }
            }
        }
    }

    /// The best fitness among the members of one species.
    #[verifier::loop_isolation(false)]
    fn best_member_fitness(members: &Vec<CreatureChromosome>) -> (r: i64)
        requires
            members@.len() > 0,
        ensures
            r == best_fitness_of(members@),
            exists|i: int| 0 <= i < members@.len() && (#[trigger] members@[i]).fitness == r,
    {
        let mut best = members[0].fitness;
        let mut k: usize = 1;
        proof {
            assert(members@.subrange(0, 1) =~= seq![members@[0]]);
            assert(best_fitness_of(members@.subrange(0, 1)) == members@[0].fitness);
        }
        while k < members.len()
            invariant
                1 <= k <= members@.len(),
                best == best_fitness_of(members@.subrange(0, k as int)),
                exists|i: int| 0 <= i < k && (#[trigger] members@[i]).fitness == best,
            decreases members@.len() - k,
        {
            proof {
                assert(members@.subrange(0, k + 1).drop_last() =~= members@.subrange(0, k as int));
                assert(members@.subrange(0, k + 1).last() == members@[k as int]);
            }
            if members[k].fitness > best {
                best = members[k].fitness;
            }
            k += 1;
        }
        proof {
            assert(members@.subrange(0, members@.len() as int) =~= members@);
        }
        best
    }
}

impl Runnable for SpeciesBasedAlgorithm {
    open spec fn wf(&self) -> bool {
        &&& self.config.wf()
        &&& 0 < self.population_size
        &&& self.population_size % 2 == 0
        &&& self.population_size <= MAX_POPULATION / 2
        &&& self.max_generations <= usize::MAX - 2
        &&& self.current_generation <= self.max_generations + 1
        &&& 0 <= self.mutation_chance <= UNIT
        &&& 0 <= self.crossover_chance <= UNIT
        &&& self.current_unbeat_best.1 <= self.current_generation
        &&& self.new_population@.len() <= 2 * self.population_size
        &&& species_wf(self.population@, self.config)
        &&& species_multiset(self.population@).len() <= MAX_POPULATION
        &&& members_ok(self.offspring_population@, self.config)
        &&& members_ok(self.new_population@, self.config)
        &&& table_keys_unique(self.previous_best_by_species@)
        &&& forall|i: int|
            0 <= i < self.previous_best_by_species@.len() ==> (
            #[trigger] self.previous_best_by_species@[i]).stagnation <= self.current_generation
                && 0 <= self.previous_best_by_species@[i].best_fitness <= FITNESS_LIMIT
    }

    open spec fn selection_req(&self) -> bool {
        true
    }

    open spec fn reproduction_req(&self) -> bool {
        self.current_generation <= self.max_generations
    }

    open spec fn finished_req(&self, chromosome: &CreatureChromosome) -> bool {
        &&& 0 <= chromosome.fitness <= FITNESS_LIMIT
        &&& chromosome.is_correct_spec(self.config)
        &&& self.new_population@.len() < 2 * self.population_size
    }

    /// Clears the run state — counters, best-fitness record, stagnation
    /// table, offspring, and collected reports — then creates
    /// `population_size` fresh random individuals and buckets each into
    /// its species.
    #[verifier::loop_isolation(false)]
    fn initialize_population(&mut self)
        ensures
            species_multiset(final(self).population@).len() == old(self).population_size,
            forall|si: int, m: int|
                0 <= si < final(self).population@.len() && 0 <= m < final(self).population@[si]
                    .members@.len() ==> (#[trigger] final(self).population@[si].members@[m])
                    .fitness == 0 && final(self).population@[si].members@[m].nodes@.len()
                    == RANDOM_NODE_COUNT && final(self).population@[si].members@[m].muscles@.len()
                    >= RANDOM_MUSCLE_COUNT,
            final(self).current_generation == 0,
            final(self).current_unbeat_best == (i64::MIN, 0usize),
            final(self).previous_best_by_species@.len() == 0,
            final(self).offspring_population@.len() == 0,
            final(self).new_population@.len() == 0,
            final(self).config == old(self).config,
            final(self).population_size == old(self).population_size,
            final(self).max_generations == old(self).max_generations,
            final(self).max_no_improvement == old(self).max_no_improvement,
            final(self).mutation_chance == old(self).mutation_chance,
            final(self).crossover_chance == old(self).crossover_chance,
    {
        self.current_generation = 0;
        self.current_unbeat_best = (i64::MIN, 0);
        self.previous_best_by_species = Vec::new();
        self.offspring_population = Vec::new();
        self.new_population = Vec::new();
        let mut initial: Vec<CreatureChromosome> = Vec::new();
        let mut k: usize = 0;
        while k < self.population_size
            invariant
                k <= self.population_size,
                initial@.len() == k,
                members_ok(initial@, self.config),
                forall|i: int|
                    0 <= i < k ==> (#[trigger] initial@[i]).fitness == 0 && initial@[i].nodes@
                        .len() == RANDOM_NODE_COUNT && initial@[i].muscles@.len()
                        >= RANDOM_MUSCLE_COUNT,
            decreases self.population_size - k,
        {
            initial.push(CreatureChromosome::random(&self.config));
            k += 1;
        }
        let ghost drawn = initial@;
        self.population = bucket_individuals(initial, Ghost(self.config));
        proof {
            assert forall|si: int, m: int|
                0 <= si < self.population@.len() && 0 <= m < self.population@[si].members@.len()
                    implies (#[trigger] self.population@[si].members@[m]).fitness == 0
                && self.population@[si].members@[m].nodes@.len() == RANDOM_NODE_COUNT
                && self.population@[si].members@[m].muscles@.len() >= RANDOM_MUSCLE_COUNT by {
                let c = self.population@[si].members@[m];
                assert(drawn.contains(c));
                let j = choose|j: int| 0 <= j < drawn.len() && drawn[j] == c;
            }
        }
    }

    /// Flattens all species, keeps the globally best `population_size`
    /// individuals by fitness, and re-buckets the survivors by their
    /// (possibly changed) classification key. No retained individual has
    /// lower fitness than any discarded one.
    #[verifier::loop_isolation(false)]
    #[verifier::rlimit(50)]
    fn selection(&mut self)
        ensures
            species_multiset(final(self).population@).len() == vstd::math::min(
                species_multiset(old(self).population@).len() as int,
                old(self).population_size as int,
            ),
            exists|ranked: Seq<CreatureChromosome>|
                {
                    &&& ranked.to_multiset() == species_multiset(old(self).population@)
                    &&& sorted_desc(ranked)
                    &&& species_multiset(final(self).population@) == ranked.subrange(
                        0,
                        vstd::math::min(ranked.len() as int, old(self).population_size as int),
                    ).to_multiset()
                    &&& forall|i: int, j: int|
                        0 <= i < vstd::math::min(
                            ranked.len() as int,
                            old(self).population_size as int,
                        ) && vstd::math::min(
                            ranked.len() as int,
                            old(self).population_size as int,
                        ) <= j < ranked.len() ==> ranked[i].fitness >= ranked[j].fitness
                },
            final(self).offspring_population@ == old(self).offspring_population@,
            final(self).new_population@ == old(self).new_population@,
            final(self).previous_best_by_species@ == old(self).previous_best_by_species@,
            final(self).config == old(self).config,
            final(self).population_size == old(self).population_size,
            final(self).max_generations == old(self).max_generations,
            final(self).max_no_improvement == old(self).max_no_improvement,
            final(self).current_unbeat_best == old(self).current_unbeat_best,
            final(self).current_generation == old(self).current_generation,
            final(self).mutation_chance == old(self).mutation_chance,
            final(self).crossover_chance == old(self).crossover_chance,
    {
        let ghost whole = species_multiset(self.population@);
        let mut flat: Vec<CreatureChromosome> = Vec::new();
        while self.population.len() > 0
            invariant
                species_wf(self.population@, self.config),
                members_ok(flat@, self.config),
                flat@.to_multiset().add(species_multiset(self.population@)) == whole,
                flat@.len() + species_multiset(self.population@).len() == whole.len(),
                self.offspring_population@ == old(self).offspring_population@,
                self.new_population@ == old(self).new_population@,
                self.previous_best_by_species@ == old(self).previous_best_by_species@,
                self.config == old(self).config,
                self.population_size == old(self).population_size,
                self.max_generations == old(self).max_generations,
                self.max_no_improvement == old(self).max_no_improvement,
                self.current_unbeat_best == old(self).current_unbeat_best,
                self.current_generation == old(self).current_generation,
                self.mutation_chance == old(self).mutation_chance,
                self.crossover_chance == old(self).crossover_chance,
            decreases self.population@.len(),
        {
            let ghost pop_before = self.population@;
            let mut sp = self.population.remove(0);
            let ghost flat_before = flat@;
            flat.append(&mut sp.members);
            proof {
                assert(pop_before.drop_first() =~= self.population@);
                vstd::seq_lib::lemma_multiset_commutative(flat_before, pop_before.first().members@);
                assert(flat@.to_multiset() == flat_before.to_multiset().add(
                    pop_before.first().members@.to_multiset(),
                ));
                assert(flat@.to_multiset().add(species_multiset(self.population@))
                    =~= flat_before.to_multiset().add(species_multiset(pop_before)));
                pop_before.first().members@.to_multiset_ensures();
                flat_before.to_multiset_ensures();
                flat@.to_multiset_ensures();
            }
        }
        proof {
            assert(species_multiset(self.population@) =~= Multiset::<
                CreatureChromosome,
            >::empty());
            assert(flat@.to_multiset() =~= whole);
            flat@.to_multiset_ensures();
        }
        let ghost pre_sort = flat@;
        sort_by_fitness_desc(&mut flat);
        proof {
            assert(forall|x: CreatureChromosome| #[trigger] flat@.to_multiset().count(x)
                <= pre_sort.to_multiset().count(x));
            lemma_members_ok_sub(flat@, pre_sort, self.config);
        }
        let ghost ranked = flat@;
        if flat.len() > self.population_size {
            let dropped = flat.split_off(self.population_size);
            proof {
                assert(flat@ =~= ranked.subrange(0, self.population_size as int));
            }
        } else {
            proof {
                assert(flat@ =~= ranked.subrange(0, ranked.len() as int));
            }
        }
        proof {
            let keep = flat@;
            assert forall|x: CreatureChromosome| #[trigger] keep.to_multiset().count(x)
                <= ranked.to_multiset().count(x) by {
                if keep.len() < ranked.len() {
                    let rest = ranked.subrange(keep.len() as int, ranked.len() as int);
                    vstd::seq_lib::lemma_multiset_commutative(keep, rest);
                    assert(keep + rest =~= ranked);
                }
            }
            lemma_members_ok_sub(flat@, ranked, self.config);
        }
        let ghost kept = flat@;
        self.population = bucket_individuals(flat, Ghost(self.config));
        proof {
            let m = vstd::math::min(ranked.len() as int, old(self).population_size as int);
            assert(kept =~= ranked.subrange(0, m));
            assert(species_multiset(self.population@) == kept.to_multiset());
            kept.to_multiset_ensures();
            assert(species_multiset(self.population@).len() == kept.len());
            assert(ranked.to_multiset() == whole);
            assert forall|i: int, j: int| 0 <= i < m && m <= j < ranked.len() implies
                ranked[i].fitness >= ranked[j].fitness by {
            }
            assert({
                &&& ranked.to_multiset() == species_multiset(old(self).population@)
                &&& sorted_desc(ranked)
                &&& species_multiset(self.population@) == ranked.subrange(
                    0,
                    vstd::math::min(ranked.len() as int, old(self).population_size as int),
                ).to_multiset()
                &&& forall|i: int, j: int|
                    0 <= i < vstd::math::min(
                        ranked.len() as int,
                        old(self).population_size as int,
                    ) && vstd::math::min(
                        ranked.len() as int,
                        old(self).population_size as int,
                    ) <= j < ranked.len() ==> ranked[i].fitness >= ranked[j].fitness
            });
        }
    }

    /// Breeds each species: a stagnant species is bred against the global
    /// fitness ranking instead of within itself, any other species pairs up
    /// its members in consecutive pairs, and a species with an odd member
    /// count breeds its leftover member against the individual of the
    /// global ranking at the species' last position. Stagnation bookkeeping
    /// runs for every non-stagnant species. The offspring list is truncated
    /// to the current total population size.
    #[verifier::loop_isolation(false)]
    #[verifier::rlimit(100)]
    fn reproduction(&mut self)
        ensures
            final(self).current_generation == old(self).current_generation + 1,
            final(self).offspring_population@.len() == species_multiset(
                old(self).population@,
            ).len(),
            forall|i: int|
                0 <= i < final(self).offspring_population@.len()
                    ==> (#[trigger] final(self).offspring_population@[i]).fitness == 0
                    && final(self).offspring_population@[i].is_correct_spec(old(self).config),
            forall|i: int|
                0 <= i < final(self).offspring_population@.len() ==> bred_from_members(
                    old(self).population@,
                    #[trigger] final(self).offspring_population@[i],
                ),
            final(self).population@ == old(self).population@,
            final(self).new_population@ == old(self).new_population@,
            forall|si: int|
                0 <= si < old(self).population@.len() ==> stagnation_updated(
                    old(self).previous_best_by_species@,
                    final(self).previous_best_by_species@,
                    (#[trigger] old(self).population@[si]).key,
                    best_fitness_of(old(self).population@[si].members@),
                    old(self).config,
                ),
            forall|k: usize|
                !species_has_key(old(self).population@, k) ==> records_match(
                    old(self).previous_best_by_species@,
                    final(self).previous_best_by_species@,
                    k,
                ),
            final(self).config == old(self).config,
            final(self).population_size == old(self).population_size,
            final(self).max_generations == old(self).max_generations,
            final(self).max_no_improvement == old(self).max_no_improvement,
            final(self).current_unbeat_best == old(self).current_unbeat_best,
            final(self).mutation_chance == old(self).mutation_chance,
            final(self).crossover_chance == old(self).crossover_chance,
    {
        self.current_generation = self.current_generation + 1;
        let ranked = self.global_ranking();
        let total = ranked.len();
        let ghost table0 = self.previous_best_by_species@;
        let mut offspring: Vec<CreatureChromosome> = Vec::new();
        let mut si: usize = 0;
        while si < self.population.len()
            invariant
                species_wf(self.population@, self.config),
                self.population@ == old(self).population@,
                table_keys_unique(self.previous_best_by_species@),
                si <= self.population@.len(),
                total == species_multiset(self.population@).len(),
                total <= MAX_POPULATION,
                ranked@.len() == total,
                members_ok(ranked@, self.config),
                offspring@.len() >= species_multiset(
                    self.population@.subrange(0, si as int),
                ).len(),
                offspring@.len() <= species_multiset(
                    self.population@.subrange(0, si as int),
                ).len() + si,
                forall|i: int|
                    0 <= i < offspring@.len() ==> (#[trigger] offspring@[i]).fitness == 0
                        && offspring@[i].is_correct_spec(self.config),
                forall|i: int| 0 <= i < offspring@.len() ==> bred_from_members(
                    self.population@,
                    #[trigger] offspring@[i],
                ),
                forall|sj: int|
                    0 <= sj < si ==> stagnation_updated(
                        table0,
                        self.previous_best_by_species@,
                        (#[trigger] self.population@[sj]).key,
                        best_fitness_of(self.population@[sj].members@),
                        self.config,
                    ),
                forall|sj: int|
                    si <= sj < self.population@.len() ==> records_match(
                        table0,
                        self.previous_best_by_species@,
                        (#[trigger] self.population@[sj]).key,
                    ),
                forall|k: usize|
                    !species_has_key(self.population@, k) ==> records_match(
                        table0,
                        self.previous_best_by_species@,
                        k,
                    ),
                forall|i: int|
                    0 <= i < self.previous_best_by_species@.len() ==> (
                    #[trigger] self.previous_best_by_species@[i]).stagnation
                        <= self.current_generation && 0 <= self.previous_best_by_species@[i]
                        .best_fitness <= FITNESS_LIMIT,
                self.current_generation == old(self).current_generation + 1,
                self.current_generation <= old(self).max_generations + 1,
                self.offspring_population@ == old(self).offspring_population@,
                self.new_population@ == old(self).new_population@,
                self.config == old(self).config,
                self.population_size == old(self).population_size,
                self.max_generations == old(self).max_generations,
                self.max_no_improvement == old(self).max_no_improvement,
                self.current_unbeat_best == old(self).current_unbeat_best,
                self.mutation_chance == old(self).mutation_chance,
                self.crossover_chance == old(self).crossover_chance,
            decreases self.population@.len() - si,
        {
            let ghost t_iter = self.previous_best_by_species@;
            let species_len = self.population[si].members.len();
            let key = self.population[si].key;
            proof {
                lemma_species_size_le_total(self.population@, si as int);
                assert(self.population@[si as int].key == key);
                assert(records_match(table0, t_iter, key));
            }
            let record = self.find_record(key);
            let is_stagnant = match record {
                Some(rec) => rec.stagnation > self.config.max_unchanged_generations,
                None => false,
            };
            if is_stagnant {
                proof {
                    let rec = record.unwrap();
                    assert(rec == record_for(t_iter, key));
                    assert(stagnant_key(t_iter, key, self.config));
                    assert(stagnant_key(table0, key, self.config));
                    assert(stagnation_updated(
                        table0,
                        self.previous_best_by_species@,
                        key,
                        best_fitness_of(self.population@[si as int].members@),
                        self.config,
                    ));
                }
            } else {
                // stagnation bookkeeping: reset on improvement, else count
                let current_best = Self::best_member_fitness(&self.population[si].members);
                proof {
                    // the record for this key has not been touched this
                    // generation, so its counter is from the last one
                    if record is Some {
                        let rec = record.unwrap();
                        assert(has_key(table0, key));
                        assert(record_for(table0, key) == rec);
                        let w = choose|w: int|
                            0 <= w < table0.len() && (#[trigger] table0[w]).key == key;
                        assert(table0[w] == rec);
                        assert(table0.contains(rec));
                        assert(rec.stagnation <= old(self).current_generation);
                        assert(0 <= rec.best_fitness <= FITNESS_LIMIT);
                    }
                    let mi = choose|mi: int|
                        0 <= mi < self.population@[si as int].members@.len() && (
                        #[trigger] self.population@[si as int].members@[mi]).fitness
                            == current_best;
                    assert(0 <= current_best <= FITNESS_LIMIT);
                    assert(!stagnant_key(table0, key, self.config));
                }
                let ghost written: SpeciesBest;
                match record {
                    None => {
                        let fresh = SpeciesBest { key, best_fitness: current_best, stagnation: 0 };
                        self.put_record(fresh);
                        proof {
                            written = fresh;
                            assert(!has_key(t_iter, key));
                            assert(!has_key(table0, key));
                        }
                    },
                    Some(rec) => {
                        if current_best > rec.best_fitness + self.config.improvement_threshold {
                            let fresh = SpeciesBest {
                                key,
                                best_fitness: current_best,
                                stagnation: 0,
                            };
                            self.put_record(fresh);
                            proof {
                                written = fresh;
                            }
                        } else {
                            let carried = SpeciesBest {
                                key,
                                best_fitness: rec.best_fitness,
                                stagnation: rec.stagnation + 1,
                            };
                            self.put_record(carried);
                            proof {
                                written = carried;
                            }
                        }
                    },
                }
                proof {
                    let t_now = self.previous_best_by_species@;
                    assert(stagnation_updated(
                        table0,
                        t_now,
                        key,
                        best_fitness_of(self.population@[si as int].members@),
                        self.config,
                    ));
                    assert(written.stagnation <= self.current_generation);
                    assert(0 <= written.best_fitness <= FITNESS_LIMIT);
                    assert forall|j: int| 0 <= j < t_now.len() implies (#[trigger] t_now[j])
                        .stagnation <= self.current_generation && 0 <= t_now[j].best_fitness
                        <= FITNESS_LIMIT by {
                        if t_now[j] != written {
                            assert(t_iter.contains(t_now[j]));
                            let w = choose|w: int|
                                0 <= w < t_iter.len() && t_iter[w] == t_now[j];
                        }
                    }
                }
            }
            // breed every planned pair of this species
            let pairs = Self::breeding_pairs(&self.population[si], &ranked, is_stagnant);
            let ghost offspring_before = offspring@;
            let mut k: usize = 0;
            while k < pairs.len()
                invariant
                    si < self.population@.len(),
                    species_len == self.population@[si as int].members@.len(),
                    species_len <= total,
                    ranked@.len() == total,
                    members_ok(ranked@, self.config),
                    forall|j: int| 0 <= j < ranked@.len() ==> from_population(
                        self.population@,
                        #[trigger] ranked@[j],
                    ),
                    species_wf(self.population@, self.config),
                    pairs@.len() == species_len / 2 + species_len % 2,
                    is_stagnant ==> forall|j: int|
                        0 <= j < species_len / 2 ==> same_creature(
                            (#[trigger] pairs@[j]).0,
                            self.population@[si as int].members@[j],
                        ) && same_creature(pairs@[j].1, ranked@[j]),
                    !is_stagnant ==> forall|j: int|
                        0 <= j < species_len / 2 ==> same_creature(
                            (#[trigger] pairs@[j]).0,
                            self.population@[si as int].members@[2 * j],
                        ) && same_creature(
                            pairs@[j].1,
                            self.population@[si as int].members@[2 * j + 1],
                        ),
                    species_len % 2 == 1 ==> same_creature(
                        pairs@.last().0,
                        self.population@[si as int].members@.last(),
                    ) && same_creature(pairs@.last().1, ranked@[species_len - 1]),
                    k <= pairs@.len(),
                    offspring@.len() == offspring_before.len() + 2 * k,
                    forall|i: int|
                        0 <= i < offspring@.len() ==> (#[trigger] offspring@[i]).fitness == 0
                            && offspring@[i].is_correct_spec(self.config),
                    forall|i: int| 0 <= i < offspring@.len() ==> bred_from_members(
                        self.population@,
                        #[trigger] offspring@[i],
                    ),
                decreases pairs@.len() - k,
            {
                let ghost p0 = pairs@[k as int].0;
                let ghost p1 = pairs@[k as int].1;
                proof {
                    // each parent describes the same creature as a current
                    // member, so it is structurally valid and its node
                    // count is a member's node count
                    let members = self.population@[si as int].members@;
                    if k < species_len / 2 {
                        if is_stagnant {
                            assert(same_creature(p0, members[k as int]));
                            assert(same_creature(p1, ranked@[k as int]));
                            assert(from_population(self.population@, ranked@[k as int]));
                            let (sj, mj) = choose|sj: int, mj: int|
                                0 <= sj < self.population@.len() && 0 <= mj < self.population@[sj]
                                    .members@.len() && same_creature(
                                    ranked@[k as int],
                                    #[trigger] self.population@[sj].members@[mj],
                                );
                            assert(is_member_node_count(
                                self.population@,
                                p1.nodes@.len() as int,
                            ));
                        } else {
                            assert(same_creature(p0, members[2 * k]));
                            assert(same_creature(p1, members[2 * k + 1]));
                            assert(is_member_node_count(
                                self.population@,
                                p1.nodes@.len() as int,
                            ));
                        }
                        assert(is_member_node_count(self.population@, p0.nodes@.len() as int));
                    } else {
                        assert(k == pairs@.len() - 1 && species_len % 2 == 1);
                        assert(same_creature(p0, members[species_len - 1]));
                        assert(same_creature(p1, ranked@[species_len - 1]));
                        assert(from_population(self.population@, ranked@[species_len - 1]));
                        let (sj, mj) = choose|sj: int, mj: int|
                            0 <= sj < self.population@.len() && 0 <= mj < self.population@[sj]
                                .members@.len() && same_creature(
                                ranked@[species_len - 1],
                                #[trigger] self.population@[sj].members@[mj],
                            );
                        assert(is_member_node_count(self.population@, p0.nodes@.len() as int));
                        assert(is_member_node_count(self.population@, p1.nodes@.len() as int));
                    }
                    assert(p0.is_correct_spec(self.config));
                    assert(p1.is_correct_spec(self.config));
                }
                let ghost offspring_pre = offspring@;
                Self::produce_children(
                    &pairs[k].0,
                    &pairs[k].1,
                    &mut offspring,
                    &self.config,
                    self.mutation_chance,
                    self.crossover_chance,
                );
                proof {
                    assert forall|i: int|
                        0 <= i < offspring@.len() implies bred_from_members(
                        self.population@,
                        #[trigger] offspring@[i],
                    ) by {
                        if i < offspring_pre.len() {
                            assert(offspring@[i] == offspring_pre[i]);
                        } else {
                            assert(is_member_node_count(
                                self.population@,
                                p0.nodes@.len() as int,
                            ));
                            assert(is_member_node_count(
                                self.population@,
                                p1.nodes@.len() as int,
                            ));
                        }
                    }
                }
                k += 1;
            }
            proof {
                let t_now = self.previous_best_by_species@;
                assert forall|sj: int| 0 <= sj < si implies stagnation_updated(
                    table0,
                    t_now,
                    (#[trigger] self.population@[sj]).key,
                    best_fitness_of(self.population@[sj].members@),
                    self.config,
                ) by {
                    assert(self.population@[sj].key != key);
                    assert(records_match(t_iter, t_now, self.population@[sj].key));
                    lemma_stagnation_updated_stable(
                        table0,
                        t_iter,
                        t_now,
                        self.population@[sj].key,
                        best_fitness_of(self.population@[sj].members@),
                        self.config,
                    );
                }
                assert forall|sj: int| si + 1 <= sj < self.population@.len() implies
                    records_match(table0, t_now, (#[trigger] self.population@[sj]).key) by {
                    assert(self.population@[sj].key != key);
                    assert(records_match(table0, t_iter, self.population@[sj].key));
                    assert(records_match(t_iter, t_now, self.population@[sj].key));
                }
                assert forall|k2: usize| !species_has_key(self.population@, k2) implies
                    records_match(table0, t_now, k2) by {
                    assert(self.population@[si as int].key == key);
                    assert(species_has_key(self.population@, key));
                    assert(k2 != key);
                    assert(records_match(table0, t_iter, k2));
                    assert(records_match(t_iter, t_now, k2));
                }
                assert(self.population@.subrange(0, si + 1) =~= self.population@.subrange(
                    0,
                    si as int,
                ).push(self.population@[si as int]));
                lemma_species_multiset_push(
                    self.population@.subrange(0, si as int),
                    self.population@[si as int],
                );
                self.population@[si as int].members@.to_multiset_ensures();
            }
            si += 1;
        }
        proof {
            assert(self.population@.subrange(0, self.population@.len() as int)
                =~= self.population@);
        }
        offspring.truncate(total);
        self.offspring_population = offspring;
    }

    /// Re-buckets the evaluated population by classification key, clearing
    /// the accumulator.
    fn replacement(&mut self)
        ensures
            species_multiset(final(self).population@) == old(self).new_population@.to_multiset(),
            final(self).new_population@.len() == 0,
            final(self).offspring_population@ == old(self).offspring_population@,
            final(self).previous_best_by_species@ == old(self).previous_best_by_species@,
            final(self).config == old(self).config,
            final(self).population_size == old(self).population_size,
            final(self).max_generations == old(self).max_generations,
            final(self).max_no_improvement == old(self).max_no_improvement,
            final(self).current_unbeat_best == old(self).current_unbeat_best,
            final(self).current_generation == old(self).current_generation,
            final(self).mutation_chance == old(self).mutation_chance,
            final(self).crossover_chance == old(self).crossover_chance,
    {
        let mut evaluated: Vec<CreatureChromosome> = Vec::new();
        core::mem::swap(&mut evaluated, &mut self.new_population);
        proof {
            evaluated@.to_multiset_ensures();
        }
        self.population = bucket_individuals(evaluated, Ghost(self.config));
    }

    /// Records one evaluated individual; the best-ever fitness updates only
    /// on a strict improvement, so ties keep the earlier generation.
    fn finished_evaluating(&mut self, chromosome: CreatureChromosome)
        ensures
            final(self).new_population@ == old(self).new_population@.push(chromosome),
            final(self).current_unbeat_best == if chromosome.fitness > old(self).current_unbeat_best.0 {
                (chromosome.fitness, old(self).current_generation)
            } else {
                old(self).current_unbeat_best
            },
            final(self).population@ == old(self).population@,
            final(self).offspring_population@ == old(self).offspring_population@,
            final(self).previous_best_by_species@ == old(self).previous_best_by_species@,
            final(self).config == old(self).config,
            final(self).population_size == old(self).population_size,
            final(self).max_generations == old(self).max_generations,
            final(self).max_no_improvement == old(self).max_no_improvement,
            final(self).current_generation == old(self).current_generation,
            final(self).mutation_chance == old(self).mutation_chance,
            final(self).crossover_chance == old(self).crossover_chance,
    {
        if chromosome.fitness > self.current_unbeat_best.0 {
            self.current_unbeat_best = (chromosome.fitness, self.current_generation);
        }
        self.new_population.push(chromosome);
    }

    /// Every member of the awaited set has reported: the accumulator holds
    /// twice the configured population size.
    fn all_have_finished_evaluating(&self) -> (r: bool)
        ensures
            r == (self.new_population@.len() == 2 * self.population_size),
    {
        self.new_population.len() == 2 * self.population_size
    }

    /// Summarizes the fitness of every evaluated individual of this cycle.
    fn save_results(&self, generation_count: usize) -> (r: Option<GenerationStats>)
        ensures
            summarizes(self.new_population@, generation_count, r),
    {
        compute_stats(&self.new_population, generation_count)
    }

    /// Every species member, in bucket order, concatenated with the
    /// freshly bred offspring: the full set the evaluator must score this
    /// cycle. Each handed-out creature is a deep copy of the corresponding
    /// held one.
    #[verifier::loop_isolation(false)]
    fn get_population_for_sim(&self) -> (r: Vec<CreatureChromosome>)
        ensures
            r@.len() == species_multiset(self.population@).len()
                + self.offspring_population@.len(),
            forall|j: int|
                0 <= j < flat_members(self.population@).len() ==> same_creature(
                    r@[j],
                    #[trigger] flat_members(self.population@)[j],
                ),
            forall|i: int|
                0 <= i < self.offspring_population@.len() ==> same_creature(
                    r@[flat_members(self.population@).len() + i],
                    #[trigger] self.offspring_population@[i],
                ),
    {
        proof {
            lemma_flat_members_len(self.population@);
        }
        let mut r: Vec<CreatureChromosome> = Vec::new();
        let mut i: usize = 0;
        while i < self.population.len()
            invariant
                i <= self.population@.len(),
                r@.len() == flat_members(self.population@.subrange(0, i as int)).len(),
                forall|j: int|
                    0 <= j < r@.len() ==> same_creature(
                        r@[j],
                        #[trigger] flat_members(self.population@.subrange(0, i as int))[j],
                    ),
            decreases self.population@.len() - i,
        {
            let ghost flat_before = flat_members(self.population@.subrange(0, i as int));
            let mut m: usize = 0;
            while m < self.population[i].members.len()
                invariant
                    i < self.population@.len(),
                    m <= self.population@[i as int].members@.len(),
                    r@.len() == flat_before.len() + m,
                    forall|j: int|
                        0 <= j < flat_before.len() ==> same_creature(
                            r@[j],
                            #[trigger] flat_before[j],
                        ),
                    forall|mj: int|
                        0 <= mj < m ==> same_creature(
                            r@[flat_before.len() + mj],
                            #[trigger] self.population@[i as int].members@[mj],
                        ),
                decreases self.population@[i as int].members@.len() - m,
            {
                r.push(self.population[i].members[m].clone());
                m += 1;
            }
            proof {
                assert(self.population@.subrange(0, i + 1) =~= self.population@.subrange(
                    0,
                    i as int,
                ).push(self.population@[i as int]));
                lemma_flat_members_push(
                    self.population@.subrange(0, i as int),
                    self.population@[i as int],
                );
                let flat_now = flat_members(self.population@.subrange(0, i + 1));
                assert(flat_now == flat_before + self.population@[i as int].members@);
                assert forall|j: int| 0 <= j < r@.len() implies same_creature(
                    r@[j],
                    #[trigger] flat_now[j],
                ) by {
                    if j < flat_before.len() {
                        assert(flat_now[j] == flat_before[j]);
                    } else {
                        assert(flat_now[j] == self.population@[i as int].members@[j
                            - flat_before.len()]);
                    }
                }
            }
            i += 1;
        }
        proof {
            assert(self.population@.subrange(0, self.population@.len() as int)
                =~= self.population@);
        }
        let mut k: usize = 0;
        while k < self.offspring_population.len()
            invariant
                r@.len() == flat_members(self.population@).len() + k,
                k <= self.offspring_population@.len(),
                forall|j: int|
                    0 <= j < flat_members(self.population@).len() ==> same_creature(
                        r@[j],
                        #[trigger] flat_members(self.population@)[j],
                    ),
                forall|i: int|
                    0 <= i < k ==> same_creature(
                        r@[flat_members(self.population@).len() + i],
                        #[trigger] self.offspring_population@[i],
                    ),
            decreases self.offspring_population@.len() - k,
        {
            r.push(self.offspring_population[k].clone());
            k += 1;
        }
        proof {
            lemma_flat_members_len(self.population@);
        }
        r
    }

    /// The run is over exactly when the generation counter has passed the
    /// maximum, or the generations since the best-ever fitness arrived
    /// exceed the no-improvement window; never earlier.
    fn get_should_end(&self) -> (r: bool)
        ensures
            r == (self.current_generation > self.max_generations || self.current_generation
                - self.current_unbeat_best.1 > self.max_no_improvement),
    {
        self.current_generation > self.max_generations || self.current_generation
            - self.current_unbeat_best.1 > self.max_no_improvement
    }
}

} // verus!
