//! Per-generation and per-run fitness summaries.
//!
//! The summary of one generation is computed over the full evaluated
//! population before selection discards anyone: best, worst, median by
//! sorted position, arithmetic mean, and population standard deviation,
//! all in fixed-point thousandths. The computation works on the plain
//! fitness values, so every step is exact integer arithmetic.

use vstd::prelude::*;
use vstd::arithmetic::div_mod::{lemma_div_is_ordered, lemma_div_multiples_vanish};
use crate::config::FITNESS_LIMIT;
use crate::creature_chromosome::CreatureChromosome;
use crate::ranking::{sort_values_desc, values_sorted_desc};

verus! {

broadcast use vstd::seq_lib::group_to_multiset_ensures;

/// Largest population any statistic is computed over; together with
/// [`FITNESS_LIMIT`] this keeps every sum inside its integer type.
pub const MAX_POPULATION: usize = 1_000_000;

/// The summary record of one generation.
#[derive(Clone, Copy, Debug, PartialEq, Eq, Structural)]
pub struct GenerationStats {
    /// Which generation the record describes.
    pub generation: usize,
    /// Highest fitness in the evaluated population, in thousandths.
    pub best: i64,
    /// Lowest fitness in the evaluated population, in thousandths.
    pub worst: i64,
    /// The fitness at the middle sorted position, in thousandths.
    pub median: i64,
    /// Arithmetic mean of the fitness values, rounded down, in thousandths.
    pub mean: i64,
    /// Population standard deviation, rounded down, in thousandths.
    pub std_dev: i64,
}

/// The per-run aggregate kept in repeated-trial mode.
#[derive(Clone, Copy, Debug, PartialEq, Eq, Structural)]
pub struct InstanceStats {
    /// Generation at which the best fitness of the run was reached.
    pub generation_count: usize,
    /// Best fitness the run reached, in thousandths.
    pub best_fitness: i64,
    /// Running sum of best-fitness values across runs, in thousandths.
    pub best_fitness_sum: i64,
}

impl InstanceStats {
    /// The average best fitness across the recorded runs, rounded down.
    pub fn average(&self) -> (r: i64)
        requires
            0 < self.generation_count <= usize::MAX / 2,
            0 <= self.best_fitness_sum,
        ensures
            r == self.best_fitness_sum as int / self.generation_count as int,
    {
        self.best_fitness_sum / (self.generation_count as i64)
    }
}

/// The fitness values of a population, in population order.
pub open spec fn fitness_seq(s: Seq<CreatureChromosome>) -> Seq<i64> {
    s.map_values(|c: CreatureChromosome| c.fitness)
}

/// Every fitness of the population lies in `[0, FITNESS_LIMIT]`.
pub open spec fn fitnesses_bounded(s: Seq<CreatureChromosome>) -> bool {
    forall|i: int| 0 <= i < s.len() ==> 0 <= (#[trigger] s[i]).fitness <= FITNESS_LIMIT
}

/// Every value of `s` lies in `[0, FITNESS_LIMIT]`.
pub open spec fn values_bounded(s: Seq<i64>) -> bool {
    forall|i: int| 0 <= i < s.len() ==> 0 <= #[trigger] s[i] <= FITNESS_LIMIT
}

/// The sum of the values of `s`.
pub open spec fn sum_values(s: Seq<i64>) -> int
    decreases s.len(),
{
    if s.len() == 0 {
        0
    } else {
        sum_values(s.drop_last()) + s.last()
    }
}

/// The sum of squared deviations of the values of `s` from `mean`.
pub open spec fn sum_sq_dev(s: Seq<i64>, mean: int) -> int
    decreases s.len(),
{
    if s.len() == 0 {
        0
    } else {
        sum_sq_dev(s.drop_last(), mean) + (s.last() - mean) * (s.last() - mean)
    }
}

/// A bounded value list has a bounded sum.
proof fn lemma_sum_values_bounds(s: Seq<i64>)
    requires
        values_bounded(s),
    ensures
        0 <= sum_values(s) <= s.len() * FITNESS_LIMIT,
    decreases s.len(),
{
    if s.len() > 0 {
        lemma_sum_values_bounds(s.drop_last());
        assert((s.len() - 1) * FITNESS_LIMIT + FITNESS_LIMIT == s.len() * FITNESS_LIMIT)
            by (nonlinear_arith);
    }
}

/// With the mean inside the value range, each squared deviation is at most
/// `FITNESS_LIMIT` squared, so the sum is bounded too.
proof fn lemma_sum_sq_dev_bounds(s: Seq<i64>, mean: int)
    requires
        values_bounded(s),
        0 <= mean <= FITNESS_LIMIT,
    ensures
        0 <= sum_sq_dev(s, mean) <= s.len() * (FITNESS_LIMIT * FITNESS_LIMIT),
    decreases s.len(),
{
    if s.len() > 0 {
        lemma_sum_sq_dev_bounds(s.drop_last(), mean);
        let d = s.last() - mean;
        assert(0 <= d * d <= FITNESS_LIMIT * FITNESS_LIMIT) by (nonlinear_arith)
            requires
                -FITNESS_LIMIT <= d <= FITNESS_LIMIT,
        ;
        assert((s.len() - 1) * (FITNESS_LIMIT * FITNESS_LIMIT) + FITNESS_LIMIT * FITNESS_LIMIT
            == s.len() * (FITNESS_LIMIT * FITNESS_LIMIT)) by (nonlinear_arith);
    }
}

/// The integer square root: the largest `r` with `r * r <= x`.
pub fn isqrt(x: u64) -> (r: u64)
    ensures
        r * r <= x,
        (r + 1) * (r + 1) > x,
        r < 4_294_967_296,
{
    let mut lo: u64 = 0;
    let mut hi: u64 = 4_294_967_296;
    proof {
        assert(hi * hi > u64::MAX) by (nonlinear_arith)
            requires
                hi == 4_294_967_296u64,
        ;
    }
    while lo + 1 < hi
        invariant
            lo < hi,
            hi <= 4_294_967_296,
            lo * lo <= x,
            hi * hi > x,
        decreases hi - lo,
    {
        let mid = lo + (hi - lo) / 2;
        proof {
            assert((mid as u128) * (mid as u128) <= 18_446_744_073_709_551_616u128)
                by (nonlinear_arith)
                requires
                    mid <= 4_294_967_296u64,
            ;
        }
        let sq = (mid as u128) * (mid as u128);
        if sq <= x as u128 {
            lo = mid;
        } else {
            hi = mid;
        }
    }
    lo
}

/// What a generation summary means: present exactly for a non-empty
/// population; the best bounds every fitness from above and the worst from
/// below, both are attained; and best, worst, median, mean, and standard
/// deviation all read off one fitness-sorted arrangement of the
/// population's fitness values.
pub open spec fn summarizes(
    population: Seq<CreatureChromosome>,
    generation: usize,
    r: Option<GenerationStats>,
) -> bool {
    &&& (r is Some <==> population.len() > 0)
    &&& (r matches Some(s) ==> {
        &&& s.generation == generation
        &&& forall|i: int|
            0 <= i < population.len() ==> (#[trigger] population[i]).fitness <= s.best
        &&& forall|i: int|
            0 <= i < population.len() ==> (#[trigger] population[i]).fitness >= s.worst
        &&& exists|i: int|
            0 <= i < population.len() && (#[trigger] population[i]).fitness == s.best
        &&& exists|i: int|
            0 <= i < population.len() && (#[trigger] population[i]).fitness == s.worst
        &&& exists|ranked: Seq<i64>|
            {
                &&& ranked.to_multiset() == fitness_seq(population).to_multiset()
                &&& values_sorted_desc(ranked)
                &&& ranked.len() == population.len()
                &&& s.best == ranked[0]
                &&& s.worst == ranked[ranked.len() - 1]
                &&& s.median == ranked[ranked.len() as int / 2]
                &&& s.mean == sum_values(ranked) / ranked.len() as int
                &&& 0 <= s.mean <= FITNESS_LIMIT
                &&& s.std_dev * s.std_dev <= sum_sq_dev(ranked, s.mean as int)
                    / ranked.len() as int
                &&& (s.std_dev + 1) * (s.std_dev + 1) > sum_sq_dev(ranked, s.mean as int)
                    / ranked.len() as int
            }
    })
}

/// Computes the summary of one evaluated generation over the whole
/// population: best and worst fitness, the fitness at the middle sorted
/// position, the rounded-down mean, and the rounded-down population
/// standard deviation. An empty population has no summary.
#[verifier::loop_isolation(false)]
#[verifier::rlimit(50)]
pub fn compute_stats(population: &Vec<CreatureChromosome>, generation: usize) -> (r: Option<
    GenerationStats,
>)
    requires
        fitnesses_bounded(population@),
        population@.len() <= MAX_POPULATION,
    ensures
        summarizes(population@, generation, r),
{
    let n = population.len();
    if n == 0 {
        return None;
    }
    // pull the fitness values out
    let mut fits: Vec<i64> = Vec::new();
    let mut k: usize = 0;
    while k < n
        invariant
            k <= n,
            fits@.len() == k,
            forall|i: int| 0 <= i < k ==> #[trigger] fits@[i] == population@[i].fitness,
        decreases n - k,
    {
        fits.push(population[k].fitness);
        k += 1;
    }
    proof {
        assert(fits@ =~= fitness_seq(population@));
    }
    let ghost unsorted = fits@;
    sort_values_desc(&mut fits);
    proof {
        // every fitness of the population appears among the sorted values
        assert forall|i: int| 0 <= i < population@.len() implies fits@.contains(
            #[trigger] population@[i].fitness,
        ) by {
            let x = population@[i].fitness;
            assert(unsorted[i] == x);
            assert(unsorted.contains(x));
            assert(unsorted.to_multiset().count(x) > 0);
            assert(fits@.to_multiset().count(x) > 0);
        }
        // and every sorted value is some member's fitness
        assert forall|j: int| #![trigger fits@[j]] 0 <= j < fits@.len() implies exists|i: int|
            0 <= i < population@.len() && (#[trigger] population@[i]).fitness == fits@[j] by {
            let x = fits@[j];
            assert(fits@.contains(x));
            assert(fits@.to_multiset().count(x) > 0);
            assert(unsorted.to_multiset().count(x) > 0);
            assert(unsorted.contains(x));
            let i = choose|i: int| 0 <= i < unsorted.len() && unsorted[i] == x;
            assert(population@[i].fitness == x);
        }
        assert forall|i: int| 0 <= i < fits@.len() implies 0 <= #[trigger] fits@[i]
            <= FITNESS_LIMIT by {
            let x = fits@[i];
            assert(fits@.contains(x));
            assert(fits@.to_multiset().count(x) > 0);
            assert(unsorted.to_multiset().count(x) > 0);
            assert(unsorted.contains(x));
            let j = choose|j: int| 0 <= j < unsorted.len() && unsorted[j] == x;
            assert(population@[j].fitness == x);
        }
        lemma_sum_values_bounds(fits@);
    }
    let best = fits[0];
    let worst = fits[n - 1];
    let median = fits[n / 2];
    proof {
        assert forall|i: int| 0 <= i < population@.len() implies (
        #[trigger] population@[i]).fitness <= best && population@[i].fitness >= worst by {
            let j = choose|j: int| 0 <= j < fits@.len() && fits@[j] == population@[i].fitness;
            assert(fits@[0] >= fits@[j] >= fits@[fits@.len() - 1]);
        }
    }
    // arithmetic mean, rounded down
    let mut sum: i64 = 0;
    let mut k: usize = 0;
    while k < n
        invariant
            k <= n,
            sum == sum_values(fits@.subrange(0, k as int)),
            0 <= sum <= k * FITNESS_LIMIT,
        decreases n - k,
    {
        proof {
            assert(fits@.subrange(0, k + 1).drop_last() =~= fits@.subrange(0, k as int));
            assert(fits@.subrange(0, k + 1).last() == fits@[k as int]);
            assert(k * FITNESS_LIMIT + FITNESS_LIMIT == (k + 1) * FITNESS_LIMIT)
                by (nonlinear_arith);
        }
        sum = sum + fits[k];
        k += 1;
    }
    proof {
        assert(fits@.subrange(0, n as int) =~= fits@);
        lemma_div_is_ordered(0, sum as int, n as int);
        lemma_div_is_ordered(sum as int, n as int * FITNESS_LIMIT, n as int);
        lemma_div_multiples_vanish(FITNESS_LIMIT as int, n as int);
    }
    let mean = sum / (n as i64);
    // population standard deviation, rounded down
    let mut sq_sum: i128 = 0;
    let mut k: usize = 0;
    while k < n
        invariant
            k <= n,
            0 <= mean <= FITNESS_LIMIT,
            sq_sum == sum_sq_dev(fits@.subrange(0, k as int), mean as int),
            0 <= sq_sum <= k * (FITNESS_LIMIT * FITNESS_LIMIT),
        decreases n - k,
    {
        proof {
            assert(fits@.subrange(0, k + 1).drop_last() =~= fits@.subrange(0, k as int));
            assert(fits@.subrange(0, k + 1).last() == fits@[k as int]);
            let d = fits@[k as int] - mean;
            assert(0 <= d * d <= FITNESS_LIMIT * FITNESS_LIMIT) by (nonlinear_arith)
                requires
                    -FITNESS_LIMIT <= d <= FITNESS_LIMIT,
            ;
            assert(k * (FITNESS_LIMIT * FITNESS_LIMIT) + FITNESS_LIMIT * FITNESS_LIMIT
                == (k + 1) * (FITNESS_LIMIT * FITNESS_LIMIT)) by (nonlinear_arith);
        }
        let deviation = (fits[k] - mean) as i128;
        sq_sum = sq_sum + deviation * deviation;
        k += 1;
    }
    proof {
        assert(fits@.subrange(0, n as int) =~= fits@);
        lemma_div_is_ordered(0, sq_sum as int, n as int);
        lemma_div_is_ordered(
            sq_sum as int,
            n as int * (FITNESS_LIMIT * FITNESS_LIMIT),
            n as int,
        );
        lemma_div_multiples_vanish(FITNESS_LIMIT * FITNESS_LIMIT, n as int);
    }
    let variance = sq_sum / (n as i128);
    proof {
        assert(variance <= FITNESS_LIMIT * FITNESS_LIMIT);
        assert(0 <= variance);
    }
    let std_dev = isqrt(variance as u64) as i64;
    proof {
        let ranked = fits@;
        assert(ranked.to_multiset() == fitness_seq(population@).to_multiset());
        assert(fits@[0] == best);
        assert(fits@[n - 1] == worst);
        assert(exists|i: int|
            0 <= i < population@.len() && (#[trigger] population@[i]).fitness == best);
        assert(exists|i: int|
            0 <= i < population@.len() && (#[trigger] population@[i]).fitness == worst);
        assert(mean == sum_values(ranked) / ranked.len() as int);
        assert(variance == sum_sq_dev(ranked, mean as int) / ranked.len() as int);
        assert(std_dev * std_dev <= variance);
        assert((std_dev + 1) * (std_dev + 1) > variance);
        assert({
            &&& ranked.to_multiset() == fitness_seq(population@).to_multiset()
            &&& values_sorted_desc(ranked)
            &&& ranked.len() == population@.len()
            &&& best == ranked[0]
            &&& worst == ranked[ranked.len() - 1]
            &&& median == ranked[ranked.len() as int / 2]
            &&& mean == sum_values(ranked) / ranked.len() as int
            &&& 0 <= mean <= FITNESS_LIMIT
            &&& std_dev * std_dev <= sum_sq_dev(ranked, mean as int) / ranked.len() as int
            &&& (std_dev + 1) * (std_dev + 1) > sum_sq_dev(ranked, mean as int)
                / ranked.len() as int
        });
    }
    Some(
        GenerationStats {
            generation,
            best,
            worst,
            median,
            mean,
            std_dev,
        },
    )
}

} // verus!
