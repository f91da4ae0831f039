//! A complete creature description: an ordered list of nodes, an ordered
//! list of muscles joining them, and the fitness the external evaluator
//! wrote. Owns the structural repair pass that restores index validity and
//! graph connectivity after the genetic operators run.

use vstd::prelude::*;
use vstd::math::min;
use crate::config::{scaled_chance, Config, MIN_MUSCLES, MIN_NODES, MAX_MAGNITUDE, UNIT};
use crate::graph::{
    component_root, connected_from_zero, contains_node, count_components, edge, joins,
    lemma_reachable_mono, lemma_reachable_step, lemma_reachable_sym, lemma_reachable_trans,
    reachable, reachable_nodes,
};
use crate::muscle_phenotype::MusclePhenotype;
use crate::node_phenotype::NodePhenotype;
use crate::operations::{
    Breedable, Correctable, Crossable, Evaluatable, Individual, Mutable, RandomCreatable,
    Selective,
};
use crate::rng::{random_in_range, random_index};

verus! {

broadcast use vstd::seq_lib::lemma_seq_contains_after_push;

/// How many nodes a freshly randomized chromosome starts with.
pub const RANDOM_NODE_COUNT: usize = 8;

/// How many muscles a freshly randomized chromosome starts with.
pub const RANDOM_MUSCLE_COUNT: usize = 9;

/// The actuation cycle length a fresh chromosome starts with, in
/// thousandths of a second.
pub const DEFAULT_INTERNAL_CLOCK: i64 = 1000;

/// Whether muscle `m` points at two distinct nodes of a creature with `n`
/// nodes.
pub open spec fn muscle_indices_valid(m: MusclePhenotype, n: int) -> bool {
    m.first_node < n && m.second_node < n && m.first_node != m.second_node
}

/// The squared straight-line distance between two node positions.
pub open spec fn sq_dist(a: NodePhenotype, b: NodePhenotype) -> int {
    (a.position_x - b.position_x) * (a.position_x - b.position_x)
        + (a.position_y - b.position_y) * (a.position_y - b.position_y)
}

/// A complete creature description, the unit of evolution.
#[derive(Debug)]
pub struct CreatureChromosome {
    /// The score the external evaluator reported, in thousandths;
    /// zero until evaluated.
    pub fitness: i64,
    /// Length of the creature's internal actuation cycle, which drives
    /// when each muscle contracts, in thousandths of a second.
    pub internal_clock_size: i64,
    /// The creature's mass nodes, in insertion order.
    pub nodes: Vec<NodePhenotype>,
    /// The creature's muscles; each joins two nodes by index.
    pub muscles: Vec<MusclePhenotype>,
}

impl CreatureChromosome {
    /// Every muscle points at two distinct, existing nodes.
    pub open spec fn muscles_valid(self) -> bool {
        forall|k: int|
            0 <= k < self.muscles@.len() ==> muscle_indices_valid(
                #[trigger] self.muscles@[k],
                self.nodes@.len() as int,
            )
    }

    /// The node/muscle graph is one connected component.
    pub open spec fn connected(self) -> bool {
        connected_from_zero(self.muscles@, self.nodes@.len() as int)
    }

    /// Every node and muscle has its fields within the configured bounds.
    pub open spec fn fields_in_range(self, config: Config) -> bool {
        &&& forall|i: int|
            0 <= i < self.nodes@.len() ==> (#[trigger] self.nodes@[i]).in_range(config)
        &&& forall|k: int|
            0 <= k < self.muscles@.len() ==> (#[trigger] self.muscles@[k]).in_range(config)
    }

    /// The full structural invariant: valid distinct muscle indices, one
    /// connected component, and every field within bounds.
    pub open spec fn is_correct_spec(self, config: Config) -> bool {
        self.muscles_valid() && self.connected() && self.fields_in_range(config)
    }

    /// What the repair pass asks: a muscle needs two nodes to point at, so a
    /// creature with any muscle at all must have at least two nodes.
    pub open spec fn repairable(self) -> bool {
        self.muscles@.len() > 0 ==> self.nodes@.len() >= 2
    }
}

impl Default for CreatureChromosome {
    /// An empty creature with no recorded fitness.
    fn default() -> (c: CreatureChromosome)
        ensures
            c.fitness == 0,
            c.internal_clock_size == DEFAULT_INTERNAL_CLOCK,
            c.nodes@.len() == 0,
            c.muscles@.len() == 0,
    {
        CreatureChromosome {
            fitness: 0,
            internal_clock_size: DEFAULT_INTERNAL_CLOCK,
            nodes: Vec::new(),
            muscles: Vec::new(),
        }
    }
}

/// Whether two node lists hold the same nodes in the same order.
fn nodes_equal(a: &Vec<NodePhenotype>, b: &Vec<NodePhenotype>) -> (r: bool)
    ensures
        r == (a@ == b@),
{
    if a.len() != b.len() {
        return false;
    }
    let mut k: usize = 0;
    while k < a.len()
        invariant
            a@.len() == b@.len(),
            k <= a@.len(),
            forall|i: int| 0 <= i < k ==> a@[i] == b@[i],
        decreases a@.len() - k,
    {
        if a[k] != b[k] {
            return false;
        }
        k += 1;
    }
    proof {
        assert(a@ =~= b@);
    }
    true
}

/// Whether two muscle lists hold the same muscles in the same order.
fn muscles_equal(a: &Vec<MusclePhenotype>, b: &Vec<MusclePhenotype>) -> (r: bool)
    ensures
        r == (a@ == b@),
{
    if a.len() != b.len() {
        return false;
    }
    let mut k: usize = 0;
    while k < a.len()
        invariant
            a@.len() == b@.len(),
            k <= a@.len(),
            forall|i: int| 0 <= i < k ==> a@[i] == b@[i],
        decreases a@.len() - k,
    {
        if a[k] != b[k] {
            return false;
        }
        k += 1;
    }
    proof {
        assert(a@ =~= b@);
    }
    true
}

/// A fresh copy of a node list.
fn copy_nodes(v: &Vec<NodePhenotype>) -> (r: Vec<NodePhenotype>)
    ensures
        r@ == v@,
{
    let mut r: Vec<NodePhenotype> = Vec::new();
    let mut k: usize = 0;
    while k < v.len()
        invariant
            k <= v@.len(),
            r@ == v@.subrange(0, k as int),
        decreases v@.len() - k,
    {
        r.push(v[k]);
        proof {
            assert(r@ =~= v@.subrange(0, k + 1));
        }
        k += 1;
    }
    proof {
        assert(r@ =~= v@);
    }
    r
}

/// A fresh copy of a muscle list.
fn copy_muscles(v: &Vec<MusclePhenotype>) -> (r: Vec<MusclePhenotype>)
    ensures
        r@ == v@,
{
    let mut r: Vec<MusclePhenotype> = Vec::new();
    let mut k: usize = 0;
    while k < v.len()
        invariant
            k <= v@.len(),
            r@ == v@.subrange(0, k as int),
        decreases v@.len() - k,
    {
        r.push(v[k]);
        proof {
            assert(r@ =~= v@.subrange(0, k + 1));
        }
        k += 1;
    }
    proof {
        assert(r@ =~= v@);
    }
    r
}

impl Clone for CreatureChromosome {
    /// A deep, independent copy: both parents survive crossover, so copies
    /// never alias.
    fn clone(&self) -> (r: Self)
        ensures
            r.fitness == self.fitness,
            r.internal_clock_size == self.internal_clock_size,
            r.nodes@ == self.nodes@,
            r.muscles@ == self.muscles@,
    {
        CreatureChromosome {
            fitness: self.fitness,
            internal_clock_size: self.internal_clock_size,
            nodes: copy_nodes(&self.nodes),
            muscles: copy_muscles(&self.muscles),
        }
    }
}

impl PartialEq for CreatureChromosome {
    fn eq(&self, other: &Self) -> (r: bool) {
        self.fitness == other.fitness && self.internal_clock_size == other.internal_clock_size
            && nodes_equal(&self.nodes, &other.nodes)
            && muscles_equal(&self.muscles, &other.muscles)
    }
}

impl vstd::std_specs::cmp::PartialEqSpecImpl for CreatureChromosome {
    open spec fn obeys_eq_spec() -> bool {
        true
    }

    open spec fn eq_spec(&self, other: &CreatureChromosome) -> bool {
        self.fitness == other.fitness && self.internal_clock_size == other.internal_clock_size
            && self.nodes@ == other.nodes@ && self.muscles@ == other.muscles@
    }
}

/// Whether two values describe the same creature body, fitness aside:
/// same internal clock, same nodes, same muscles.
pub open spec fn same_body(a: CreatureChromosome, b: CreatureChromosome) -> bool {
    &&& a.internal_clock_size == b.internal_clock_size
    &&& a.nodes@ == b.nodes@
    &&& a.muscles@ == b.muscles@
}

impl CreatureChromosome {
    /// Decides whether the two values describe the same creature body,
    /// fitness aside.
    pub fn has_same_body(&self, other: &Self) -> (r: bool)
        ensures
            r == same_body(*self, *other),
    {
        self.internal_clock_size == other.internal_clock_size
            && nodes_equal(&self.nodes, &other.nodes)
            && muscles_equal(&self.muscles, &other.muscles)
    }
}

/// The squared distance between two nodes, exactly.
fn squared_distance(a: &NodePhenotype, b: &NodePhenotype) -> (d: i64)
    requires
        -MAX_MAGNITUDE <= a.position_x <= MAX_MAGNITUDE,
        -MAX_MAGNITUDE <= a.position_y <= MAX_MAGNITUDE,
        -MAX_MAGNITUDE <= b.position_x <= MAX_MAGNITUDE,
        -MAX_MAGNITUDE <= b.position_y <= MAX_MAGNITUDE,
    ensures
        d == sq_dist(*a, *b),
        0 <= d <= 8_000_000_000_000,
{
    let dx = a.position_x - b.position_x;
    let dy = a.position_y - b.position_y;
    proof {
        assert(0 <= dx * dx <= 4_000_000_000_000 && 0 <= dy * dy <= 4_000_000_000_000)
            by (nonlinear_arith)
            requires
                -2_000_000 <= dx <= 2_000_000,
                -2_000_000 <= dy <= 2_000_000,
        ;
    }
    dx * dx + dy * dy
}

impl CreatureChromosome {
    /// Repairs muscle node references: an index out of bounds is resampled
    /// uniformly in range; equal indices are replaced by a uniformly drawn
    /// distinct pair. A muscle whose indices are already valid is left
    /// untouched, and no other field changes.
    #[verifier::loop_isolation(false)]
    fn fix_muscles_node_references(&mut self)
        requires
            old(self).repairable(),
        ensures
            final(self).nodes@ == old(self).nodes@,
            final(self).fitness == old(self).fitness,
            final(self).internal_clock_size == old(self).internal_clock_size,
            final(self).muscles@.len() == old(self).muscles@.len(),
            final(self).muscles_valid(),
            forall|k: int|
                0 <= k < old(self).muscles@.len() ==> muscle_fields_match(
                    #[trigger] final(self).muscles@[k],
                    old(self).muscles@[k],
                ),
            forall|k: int|
                0 <= k < old(self).muscles@.len() && muscle_indices_valid(
                    #[trigger] old(self).muscles@[k],
                    old(self).nodes@.len() as int,
                ) ==> final(self).muscles@[k] == old(self).muscles@[k],
    {
        let n = self.nodes.len();
        let mut k: usize = 0;
        while k < self.muscles.len()
            invariant
                self.nodes@ == old(self).nodes@,
                self.fitness == old(self).fitness,
                self.internal_clock_size == old(self).internal_clock_size,
                self.muscles@.len() == old(self).muscles@.len(),
                k <= self.muscles@.len(),
                forall|j: int|
                    0 <= j < k ==> muscle_indices_valid(
                        #[trigger] self.muscles@[j],
                        n as int,
                    ),
                forall|j: int|
                    0 <= j < k ==> muscle_fields_match(
                        #[trigger] self.muscles@[j],
                        old(self).muscles@[j],
                    ),
                forall|j: int|
                    0 <= j < k && muscle_indices_valid(
                        #[trigger] old(self).muscles@[j],
                        n as int,
                    ) ==> self.muscles@[j] == old(self).muscles@[j],
                forall|j: int| k <= j < self.muscles@.len() ==> #[trigger] self.muscles@[j]
                    == old(self).muscles@[j],
            decreases self.muscles@.len() - k,
        {
            let m = self.muscles[k];
            let mut first = m.first_node;
            let mut second = m.second_node;
            if first >= n {
                first = random_index(n);
            }
            if second >= n {
                second = random_index(n);
            }
            if first == second {
                let r = random_index(n - 1);
                second = if r >= first {
                    r + 1
                } else {
                    r
                };
            }
            if first != m.first_node || second != m.second_node {
                let mut updated = m;
                updated.first_node = first;
                updated.second_node = second;
                self.muscles.set(k, updated);
            }
            k += 1;
        }
    }

    /// Connects a dangling node to the geometrically closest node of the
    /// already connected set, reusing the last muscle's parameters (or a
    /// fresh random muscle when there is none) and re-pointing its indices.
    /// Newly added repair muscles are not considered when searching: only
    /// the nodes already in `connected` are.
    #[verifier::loop_isolation(false)]
    fn connect_to_closest(
        &mut self,
        node_index: usize,
        connected: &mut Vec<usize>,
        config: &Config,
    ) -> (closest: usize)
        requires
            config.wf(),
            node_index < old(self).nodes@.len(),
            forall|i: int| 0 <= i < old(connected)@.len() ==> #[trigger] old(connected)@[i]
                < old(self).nodes@.len(),
            !old(connected)@.contains(node_index),
            old(connected)@.contains(0usize),
            forall|i: int|
                0 <= i < old(self).nodes@.len() ==> (#[trigger] old(self).nodes@[i]).in_range(
                    *config,
                ),
            forall|k: int|
                0 <= k < old(self).muscles@.len() ==> (#[trigger] old(self).muscles@[k]).in_range(
                    *config,
                ),
        ensures
            final(self).nodes@ == old(self).nodes@,
            final(self).fitness == old(self).fitness,
            final(self).internal_clock_size == old(self).internal_clock_size,
            closest < old(self).nodes@.len(),
            closest != node_index,
            old(connected)@.contains(closest),
            final(self).muscles@.len() == old(self).muscles@.len() + 1,
            forall|k: int| 0 <= k < old(self).muscles@.len() ==> #[trigger] final(self).muscles@[k]
                == old(self).muscles@[k],
            final(self).muscles@.last().first_node == node_index,
            final(self).muscles@.last().second_node == closest,
            final(self).muscles@.last().in_range(*config),
            old(self).muscles@.len() > 0 ==> muscle_fields_match(
                final(self).muscles@.last(),
                old(self).muscles@.last(),
            ),
            final(connected)@ == old(connected)@.push(node_index),
            forall|j: int|
                0 <= j < old(connected)@.len() && old(connected)@[j] != node_index ==> sq_dist(
                    old(self).nodes@[node_index as int],
                    old(self).nodes@[closest as int],
                ) <= sq_dist(
                    old(self).nodes@[node_index as int],
                    #[trigger] old(self).nodes@[old(connected)@[j] as int],
                ),
    {
        let node = self.nodes[node_index];
        let mut closest_index: usize = 0;
        let mut closest_distance: i64 = i64::MAX;
        let mut k: usize = 0;
        while k < connected.len()
            invariant
                k <= connected@.len(),
                closest_distance == i64::MAX || (closest_distance < i64::MAX
                    && closest_index < self.nodes@.len() && closest_index != node_index
                    && connected@.contains(closest_index)
                    && closest_distance == sq_dist(
                    self.nodes@[node_index as int],
                    self.nodes@[closest_index as int],
                )),
                forall|j: int|
                    0 <= j < k && connected@[j] != node_index ==> closest_distance <= sq_dist(
                        self.nodes@[node_index as int],
                        #[trigger] self.nodes@[connected@[j] as int],
                    ),
            decreases connected@.len() - k,
        {
            let other = connected[k];
            if other != node_index {
                let distance = squared_distance(&node, &self.nodes[other]);
                if distance < closest_distance {
                    closest_distance = distance;
                    closest_index = other;
                }
            }
            k += 1;
        }
        proof {
            let z = choose|j: int| 0 <= j < connected@.len() && connected@[j] == 0usize;
            assert(connected@[z] != node_index);
            let a = self.nodes@[node_index as int];
            let b = self.nodes@[0];
            assert(0 <= sq_dist(a, b) <= 8_000_000_000_000) by (nonlinear_arith)
                requires
                    -2_000_000 <= a.position_x - b.position_x <= 2_000_000,
                    -2_000_000 <= a.position_y - b.position_y <= 2_000_000,
            ;
            assert(closest_distance <= sq_dist(a, b));
            assert(closest_distance < i64::MAX);
        }
        let mut muscle = if self.muscles.len() > 0 {
            self.muscles[self.muscles.len() - 1]
        } else {
            MusclePhenotype::random(config)
        };
        muscle.first_node = node_index;
        muscle.second_node = closest_index;
        self.muscles.push(muscle);
        connected.push(node_index);
        closest_index
    }

    /// Connects dangling nodes to the nearest already reachable node until
    /// the whole graph is one component. Bounded by the node count; a
    /// creature that is already connected is left untouched.
    #[verifier::loop_isolation(false)]
    #[verifier::rlimit(50)]
    fn fix_dangling_nodes(&mut self, config: &Config)
        requires
            config.wf(),
            old(self).muscles_valid(),
            old(self).repairable(),
            forall|i: int|
                0 <= i < old(self).nodes@.len() ==> (#[trigger] old(self).nodes@[i]).in_range(
                    *config,
                ),
            forall|k: int|
                0 <= k < old(self).muscles@.len() ==> (#[trigger] old(self).muscles@[k]).in_range(
                    *config,
                ),
        ensures
            final(self).nodes@ == old(self).nodes@,
            final(self).fitness == old(self).fitness,
            final(self).internal_clock_size == old(self).internal_clock_size,
            final(self).muscles@.len() >= old(self).muscles@.len(),
            final(self).muscles@.len() <= old(self).muscles@.len() + old(self).nodes@.len(),
            forall|k: int| 0 <= k < old(self).muscles@.len() ==> #[trigger] final(self).muscles@[k]
                == old(self).muscles@[k],
            final(self).muscles_valid(),
            final(self).connected(),
            forall|k: int|
                0 <= k < final(self).muscles@.len() ==> (#[trigger] final(self).muscles@[k])
                    .in_range(*config),
            old(self).muscles@.len() > 0 ==> forall|k: int|
                old(self).muscles@.len() <= k < final(self).muscles@.len()
                    ==> muscle_fields_match(
                    #[trigger] final(self).muscles@[k],
                    old(self).muscles@.last(),
                ),
            old(self).nodes@.len() > 0 ==> final(self).muscles@.len() == old(self).muscles@.len()
                + count_components(old(self).muscles@, old(self).nodes@.len() as int) - 1,
            old(self).connected() ==> final(self).muscles@ == old(self).muscles@,
    {
        let n = self.nodes.len();
        if n == 0 {
            return;
        }
        let ghost base = old(self).muscles@;
        let base_muscles = copy_muscles(&self.muscles);
        let mut visited = reachable_nodes(n, &self.muscles, 0);
        proof {
            // the initially visited set is closed under reachability along
            // the original muscles, and node 0 vouches for each element
            assert forall|x: usize, y: usize|
                visited@.contains(x) && y < n && reachable(base, x as int, y as int)
                    implies visited@.contains(y) by {
                let xi = choose|xi: int| 0 <= xi < visited@.len() && visited@[xi] == x;
                assert(reachable(base, 0, visited@[xi] as int));
                lemma_reachable_trans(base, 0, x as int, y as int);
            }
            assert forall|x: usize| #[trigger] visited@.contains(x) implies exists|j: int|
                0 <= j < n && (j == 0 || j < 0) && reachable(base, j, x as int) by {
                let xi = choose|xi: int| 0 <= xi < visited@.len() && visited@[xi] == x;
                assert(reachable(base, 0, x as int));
            }
        }
        let mut i: usize = 0;
        while i < n
            invariant
                n == self.nodes@.len(),
                n >= 1,
                self.nodes@ == old(self).nodes@,
                self.fitness == old(self).fitness,
                self.internal_clock_size == old(self).internal_clock_size,
                base_muscles@ == base,
                self.muscles@.len() >= base.len(),
                self.muscles@.len() <= base.len() + i,
                forall|k: int| 0 <= k < base.len() ==> #[trigger] self.muscles@[k] == base[k],
                self.muscles_valid(),
                forall|k: int|
                    0 <= k < self.muscles@.len() ==> (#[trigger] self.muscles@[k]).in_range(
                        *config,
                    ),
                base.len() > 0 ==> forall|k: int|
                    base.len() <= k < self.muscles@.len() ==> muscle_fields_match(
                        #[trigger] self.muscles@[k],
                        base.last(),
                    ),
                i <= n,
                forall|x: int| 0 <= x < visited@.len() ==> #[trigger] visited@[x] < n,
                forall|x: int| 0 <= x < visited@.len() ==> reachable(
                    self.muscles@,
                    0,
                    #[trigger] visited@[x] as int,
                ),
                visited@.contains(0usize),
                forall|j: int| 0 <= j < i ==> #[trigger] visited@.contains(j as usize),
                forall|x: usize, y: usize|
                    visited@.contains(x) && y < n && reachable(base, x as int, y as int)
                        ==> visited@.contains(y),
                forall|x: usize| #[trigger] visited@.contains(x) ==> exists|j: int|
                    0 <= j < n && (j == 0 || j < i) && reachable(base, j, x as int),
                self.muscles@.len() == base.len() + count_components(base, i as int) - (
                if i > 0 {
                    1int
                } else {
                    0int
                }),
                connected_from_zero(base, n as int) ==> (forall|j: usize| j < n
                    ==> visited@.contains(j)),
                connected_from_zero(base, n as int) ==> self.muscles@ == base,
            decreases n - i,
        {
            if !contains_node(&visited, i) {
                let ghost ms_before = self.muscles@;
                let ghost visited_before = visited@;
                let closest = self.connect_to_closest(i, &mut visited, config);
                proof {
                    let ms_after = self.muscles@;
                    // every fact about the old muscles carries over
                    assert(forall|k: int| 0 <= k < ms_before.len()
                        ==> #[trigger] ms_after[k] == ms_before[k]);
                    // the appended muscle joins i and closest
                    assert(joins(ms_after.last(), i as int, closest as int));
                    assert(ms_after[ms_after.len() - 1] == ms_after.last());
                    assert(edge(ms_after, i as int, closest as int));
                    // closest was reachable from 0 before, hence still is
                    let cz = choose|j: int|
                        0 <= j < visited_before.len() && visited_before[j] == closest;
                    assert(reachable(ms_before, 0, closest as int));
                    lemma_reachable_mono(ms_before, ms_after, 0, closest as int);
                    lemma_reachable_step(ms_after, i as int, closest as int);
                    lemma_reachable_sym(ms_after, i as int, closest as int);
                    lemma_reachable_trans(ms_after, 0, closest as int, i as int);
                    // all previously visited nodes stay reachable
                    assert forall|x: int| 0 <= x < visited@.len() implies reachable(
                        ms_after,
                        0,
                        #[trigger] visited@[x] as int,
                    ) by {
                        if x < visited_before.len() {
                            assert(reachable(ms_before, 0, visited_before[x] as int));
                            lemma_reachable_mono(
                                ms_before,
                                ms_after,
                                0,
                                visited_before[x] as int,
                            );
                        } else {
                            assert(visited@[x] == i);
                        }
                    }
                    // a connected creature never reaches this branch
                    if connected_from_zero(base, n as int) {
                        assert(visited_before.contains(i as usize));
                        assert(false);
                    }
                }
                // mark every node of the dangling node's old component as
                // now belonging to the connected set
                let mates = reachable_nodes(n, &base_muscles, i);
                proof {
                    assert(reachable(self.muscles@, 0, i as int));
                }
                let ghost visited_mid = visited@;
                let mut t: usize = 0;
                while t < mates.len()
                    invariant
                        t <= mates@.len(),
                        visited@ == visited_mid + mates@.subrange(0, t as int),
                        forall|x: int| 0 <= x < visited@.len() ==> #[trigger] visited@[x] < n,
                        forall|x: int| 0 <= x < visited@.len() ==> reachable(
                            self.muscles@,
                            0,
                            #[trigger] visited@[x] as int,
                        ),
                        visited@.contains(0usize),
                        visited@.contains(i),
                        forall|j: int| 0 <= j < i ==> #[trigger] visited@.contains(j as usize),
                    decreases mates@.len() - t,
                {
                    let x = mates[t];
                    proof {
                        assert(reachable(base, i as int, x as int));
                        lemma_reachable_mono(base, self.muscles@, i as int, x as int);
                        lemma_reachable_trans(self.muscles@, 0, i as int, x as int);
                    }
                    visited.push(x);
                    proof {
                        assert(visited@ =~= visited_mid + mates@.subrange(0, t + 1));
                    }
                    t += 1;
                }
                proof {
                    assert(visited@ == visited_mid + mates@.subrange(0, mates@.len() as int));
                    assert(mates@.subrange(0, mates@.len() as int) =~= mates@);
                    assert(visited_mid == visited_before.push(i));
                    // membership in the grown set, both ways
                    assert forall|x: usize| #[trigger] visited@.contains(x) implies
                        visited_before.contains(x) || x == i || mates@.contains(x) by {
                        let xi = choose|xi: int|
                            0 <= xi < visited@.len() && visited@[xi] == x;
                        if xi < visited_before.len() {
                            assert(visited_before[xi] == x);
                        } else if xi == visited_before.len() {
                            assert(x == i);
                        } else {
                            assert(mates@[xi - visited_mid.len()] == x);
                        }
                    }
                    assert forall|x: usize|
                        visited_before.contains(x) || mates@.contains(x) implies
                        #[trigger] visited@.contains(x) by {
                        if visited_before.contains(x) {
                            let xi = choose|xi: int|
                                0 <= xi < visited_before.len() && visited_before[xi] == x;
                            assert(visited@[xi] == x);
                        } else {
                            let xi = choose|xi: int|
                                0 <= xi < mates@.len() && mates@[xi] == x;
                            assert(visited@[visited_mid.len() + xi] == x);
                        }
                    }
                    assert(mates@.contains(i));
                    // the grown set stays closed under reachability along
                    // the original muscles: old elements by the head
                    // invariant, new ones through the dangling node
                    assert forall|x: usize, y: usize|
                        visited@.contains(x) && y < n && reachable(base, x as int, y as int)
                            implies visited@.contains(y) by {
                        if visited_before.contains(x) {
                            assert(visited_before.contains(y));
                        } else {
                            assert(x == i || mates@.contains(x));
                            if x != i {
                                assert(reachable(base, i as int, x as int));
                                lemma_reachable_trans(base, i as int, x as int, y as int);
                            }
                            assert(reachable(base, i as int, y as int));
                            assert(mates@.contains(y));
                        }
                    }
                    // the dangling node vouches for everything just added
                    assert forall|x: usize| #[trigger] visited@.contains(x) implies exists|j: int|
                        0 <= j < n && (j == 0 || j < i + 1) && reachable(base, j, x as int) by {
                        if visited_before.contains(x) {
                            let j = choose|j: int|
                                0 <= j < n && (j == 0 || j < i) && reachable(
                                    base,
                                    j,
                                    x as int,
                                );
                            assert(0 <= j < n && (j == 0 || j < i + 1) && reachable(
                                base,
                                j,
                                x as int,
                            ));
                        } else {
                            assert(x == i || mates@.contains(x));
                            assert(reachable(base, i as int, x as int));
                            assert(0 <= i < n && (i as int == 0 || i < i + 1) && reachable(
                                base,
                                i as int,
                                x as int,
                            ));
                        }
                    }
                    // node i heads its own component: nothing below it
                    // reaches it, else it would already have been visited
                    assert(i != 0);
                    assert forall|j: int| 0 <= j < i implies !reachable(base, j, i as int) by {
                        if reachable(base, j, i as int) {
                            assert(visited_before.contains(j as usize));
                            assert(visited_before.contains(i));
                            assert(false);
                        }
                    }
                    assert(component_root(base, i as int));
                    assert(count_components(base, i + 1) == count_components(base, i as int)
                        + 1);
                }
            } else {
                proof {
                    // a visited node is vouched for by a lower-numbered
                    // one, so it does not head a component of its own
                    if i > 0 {
                        let j = choose|j: int|
                            0 <= j < n && (j == 0 || j < i) && reachable(base, j, i as int);
                        assert(j < i);
                        assert(!component_root(base, i as int));
                    }
                    assert(count_components(base, i + 1) == count_components(base, i as int)
                        + if component_root(base, i as int) {
                        1int
                    } else {
                        0int
                    });
                    assert forall|x: usize| #[trigger] visited@.contains(x) implies exists|j: int|
                        0 <= j < n && (j == 0 || j < i + 1) && reachable(base, j, x as int) by {
                        let j = choose|j: int|
                            0 <= j < n && (j == 0 || j < i) && reachable(base, j, x as int);
                        assert(0 <= j < n && (j == 0 || j < i + 1) && reachable(
                            base,
                            j,
                            x as int,
                        ));
                    }
                }
            }
            i += 1;
        }
        proof {
            assert forall|j: int| 0 <= j < n implies reachable(
                self.muscles@,
                0,
                j,
            ) by {
                assert(visited@.contains(j as usize));
                let x = choose|x: int| 0 <= x < visited@.len() && visited@[x] == j as usize;
                assert(reachable(self.muscles@, 0, visited@[x] as int));
            }
        }
    }
}

/// Whether two muscles agree on everything but their node indices.
pub open spec fn muscle_fields_match(a: MusclePhenotype, b: MusclePhenotype) -> bool {
    &&& a.contracted_time == b.contracted_time
    &&& a.extended_length == b.extended_length
    &&& a.contracted_length == b.contracted_length
    &&& a.strength == b.strength
}

impl Correctable for CreatureChromosome {
    open spec fn correct_req(&self) -> bool {
        self.repairable()
    }

    /// The structural repair pass: clamps every node and muscle field into
    /// range, repairs out-of-range or self-looping muscle indices, then
    /// connects dangling components to their geometrically closest
    /// reachable node. A chromosome that already satisfies the whole
    /// invariant is left untouched, and node count never changes.
    #[verifier::loop_isolation(false)]
    fn correct(&mut self, config: &Config)
        ensures
            final(self).is_correct_spec(*config),
            final(self).nodes@.len() == old(self).nodes@.len(),
            final(self).fitness == old(self).fitness,
            final(self).internal_clock_size == old(self).internal_clock_size,
            final(self).muscles@.len() >= old(self).muscles@.len(),
            final(self).muscles@.len() <= old(self).muscles@.len() + old(self).nodes@.len(),
            old(self).muscles_valid() && old(self).connected() ==> final(self).muscles@.len()
                == old(self).muscles@.len(),
            old(self).is_correct_spec(*config) ==> final(self).nodes@ == old(self).nodes@
                && final(self).muscles@ == old(self).muscles@,
    {
        let ghost start = *old(self);
        // field-level correction: clamp every node
        let mut k: usize = 0;
        while k < self.nodes.len()
            invariant
                self.nodes@.len() == start.nodes@.len(),
                self.muscles@ == start.muscles@,
                self.fitness == start.fitness,
                self.internal_clock_size == start.internal_clock_size,
                k <= self.nodes@.len(),
                forall|i: int| 0 <= i < k ==> (#[trigger] self.nodes@[i]).in_range(*config),
                forall|i: int|
                    0 <= i < k && start.nodes@[i].in_range(*config) ==> #[trigger] self.nodes@[i]
                        == start.nodes@[i],
                forall|i: int| k <= i < self.nodes@.len() ==> #[trigger] self.nodes@[i]
                    == start.nodes@[i],
            decreases self.nodes@.len() - k,
        {
            let mut node = self.nodes[k];
            node.correct(config);
            self.nodes.set(k, node);
            k += 1;
        }
        // field-level correction: clamp every muscle
        let mut k: usize = 0;
        while k < self.muscles.len()
            invariant
                self.nodes@.len() == start.nodes@.len(),
                forall|i: int| 0 <= i < self.nodes@.len() ==> (#[trigger] self.nodes@[i]).in_range(
                    *config,
                ),
                start.fields_in_range(*config) ==> self.nodes@ == start.nodes@,
                self.fitness == start.fitness,
                self.internal_clock_size == start.internal_clock_size,
                self.muscles@.len() == start.muscles@.len(),
                k <= self.muscles@.len(),
                forall|i: int| 0 <= i < k ==> (#[trigger] self.muscles@[i]).in_range(*config),
                forall|i: int|
                    0 <= i < k && start.muscles@[i].in_range(*config) ==> #[trigger] self.muscles@[i]
                        == start.muscles@[i],
                forall|i: int|
                    0 <= i < k ==> (#[trigger] self.muscles@[i]).first_node
                        == start.muscles@[i].first_node && self.muscles@[i].second_node
                        == start.muscles@[i].second_node,
                forall|i: int| k <= i < self.muscles@.len() ==> #[trigger] self.muscles@[i]
                    == start.muscles@[i],
            decreases self.muscles@.len() - k,
        {
            let mut muscle = self.muscles[k];
            muscle.correct(config);
            self.muscles.set(k, muscle);
            k += 1;
        }
        proof {
            if start.fields_in_range(*config) {
                assert(self.nodes@ =~= start.nodes@);
                assert(self.muscles@ =~= start.muscles@);
            }
            if start.muscles_valid() {
                assert(self.muscles_valid());
            }
        }
        let ghost clamped = *self;
        // index repair
        self.fix_muscles_node_references();
        proof {
            assert forall|k: int| 0 <= k < self.muscles@.len() implies (
                #[trigger] self.muscles@[k]).in_range(*config) by {
                assert(muscle_fields_match(self.muscles@[k], clamped.muscles@[k]));
            }
            if start.is_correct_spec(*config) {
                assert forall|k: int| 0 <= k < self.muscles@.len() implies #[trigger] self
                    .muscles@[k] == start.muscles@[k] by {
                    assert(muscle_indices_valid(
                        clamped.muscles@[k],
                        clamped.nodes@.len() as int,
                    ));
                }
                assert(self.muscles@ =~= start.muscles@);
            }
            if start.muscles_valid() && start.connected() {
                // index repair left every muscle alone, so connectivity holds
                assert forall|k: int| 0 <= k < self.muscles@.len() implies #[trigger] self
                    .muscles@[k].first_node == start.muscles@[k].first_node && self.muscles@[k]
                    .second_node == start.muscles@[k].second_node by {
                    assert(muscle_indices_valid(
                        clamped.muscles@[k],
                        clamped.nodes@.len() as int,
                    ));
                }
                assert forall|i: int| 0 <= i < self.nodes@.len() implies reachable(
                    self.muscles@,
                    0,
                    i,
                ) by {
                    assert(reachable(start.muscles@, 0, i));
                    lemma_reachable_same_edges(start.muscles@, self.muscles@, 0, i);
                }
            }
        }
        // connectivity repair
        self.fix_dangling_nodes(config);
    }

    /// Decides the whole structural invariant: index validity, a single
    /// connected component, and field ranges.
    #[verifier::loop_isolation(false)]
    fn is_correct(&self, config: &Config) -> (r: bool)
        ensures
            r == self.is_correct_spec(*config),
    {
        let n = self.nodes.len();
        // index validity
        let mut k: usize = 0;
        while k < self.muscles.len()
            invariant
                k <= self.muscles@.len(),
                forall|j: int|
                    0 <= j < k ==> muscle_indices_valid(#[trigger] self.muscles@[j], n as int),
            decreases self.muscles@.len() - k,
        {
            let m = self.muscles[k];
            if m.first_node >= n || m.second_node >= n || m.first_node == m.second_node {
                return false;
            }
            k += 1;
        }
        // connectivity
        if n > 0 {
            let visited = reachable_nodes(n, &self.muscles, 0);
            let mut j: usize = 0;
            while j < n
                invariant
                    j <= n,
                    forall|i: int| 0 <= i < j ==> reachable(self.muscles@, 0, i),
                decreases n - j,
            {
                if !contains_node(&visited, j) {
                    proof {
                        if reachable(self.muscles@, 0, j as int) {
                            assert(visited@.contains(j));
                        }
                    }
                    return false;
                }
                proof {
                    let x = choose|x: int| 0 <= x < visited@.len() && visited@[x] == j;
                    assert(reachable(self.muscles@, 0, visited@[x] as int));
                }
                j += 1;
            }
        }
        // field ranges
        let mut k: usize = 0;
        while k < self.nodes.len()
            invariant
                k <= self.nodes@.len(),
                forall|i: int| 0 <= i < k ==> (#[trigger] self.nodes@[i]).in_range(*config),
            decreases self.nodes@.len() - k,
        {
            let node = self.nodes[k];
            if !node.is_correct(config) {
                return false;
            }
            k += 1;
        }
        let mut k: usize = 0;
        while k < self.muscles.len()
            invariant
                k <= self.muscles@.len(),
                forall|i: int| 0 <= i < k ==> (#[trigger] self.muscles@[i]).in_range(*config),
            decreases self.muscles@.len() - k,
        {
            let muscle = self.muscles[k];
            if !muscle.is_correct(config) {
                return false;
            }
            k += 1;
        }
        true
    }
}

/// Reachability only depends on which pairs of nodes the muscles join, so
/// two muscle lists of equal length whose muscles agree on their endpoints
/// give the same reachability.
proof fn lemma_reachable_same_edges(
    ms1: Seq<MusclePhenotype>,
    ms2: Seq<MusclePhenotype>,
    a: int,
    b: int,
)
    requires
        ms1.len() == ms2.len(),
        forall|k: int|
            0 <= k < ms1.len() ==> (#[trigger] ms2[k]).first_node == ms1[k].first_node
                && ms2[k].second_node == ms1[k].second_node,
        reachable(ms1, a, b),
    ensures
        reachable(ms2, a, b),
{
    let p = choose|p: Seq<int>| crate::graph::is_walk(ms1, p, a, b);
    assert forall|i: int| 0 <= i < p.len() - 1 implies edge(ms2, #[trigger] p[i], p[i + 1]) by {
        assert(edge(ms1, p[i], p[i + 1]));
        let k = choose|k: int| 0 <= k < ms1.len() && joins(#[trigger] ms1[k], p[i], p[i + 1]);
        assert(joins(ms2[k], p[i], p[i + 1]));
    }
    assert(crate::graph::is_walk(ms2, p, a, b));
}

impl Crossable for CreatureChromosome {
    open spec fn cross_req(&self, other: &Self, config: &Config) -> bool {
        &&& forall|i: int|
            0 <= i < self.nodes@.len() ==> (#[trigger] self.nodes@[i]).in_range(*config)
        &&& forall|i: int|
            0 <= i < other.nodes@.len() ==> (#[trigger] other.nodes@[i]).in_range(*config)
    }

    /// Crosses the two parents gene by gene: the i-th child node comes from
    /// both parents' i-th nodes, the i-th child muscle from both parents'
    /// i-th muscles; the child's length in each list is the shorter of the
    /// parents'. The child carries no fitness yet.
    #[verifier::loop_isolation(false)]
    fn cross(&self, other: &Self, config: &Config, chance: i64) -> (child: Self)
        ensures
            child.fitness == 0,
            child.internal_clock_size == DEFAULT_INTERNAL_CLOCK,
            child.nodes@.len() == min(self.nodes@.len() as int, other.nodes@.len() as int),
            child.muscles@.len() == min(self.muscles@.len() as int, other.muscles@.len() as int),
            forall|i: int|
                0 <= i < child.nodes@.len() ==> (#[trigger] child.nodes@[i]).in_range(*config),
            forall|i: int|
                0 <= i < child.nodes@.len() ==> (#[trigger] child.nodes@[i]).position_x == (
                self.nodes@[i].position_x + other.nodes@[i].position_x) / 2 && child.nodes@[i]
                    .position_y == (self.nodes@[i].position_y + other.nodes@[i].position_y) / 2
                    && (child.nodes@[i].friction == self.nodes@[i].friction || child.nodes@[i]
                    .friction == other.nodes@[i].friction),
            forall|k: int|
                0 <= k < child.muscles@.len() ==> ((#[trigger] child.muscles@[k]).first_node
                    == self.muscles@[k].first_node && child.muscles@[k].second_node
                    == self.muscles@[k].second_node) || (child.muscles@[k].first_node
                    == other.muscles@[k].first_node && child.muscles@[k].second_node
                    == other.muscles@[k].second_node),
            self.muscles_valid() && other.muscles_valid() ==> child.repairable(),
    {
        let node_count = if self.nodes.len() < other.nodes.len() {
            self.nodes.len()
        } else {
            other.nodes.len()
        };
        let muscle_count = if self.muscles.len() < other.muscles.len() {
            self.muscles.len()
        } else {
            other.muscles.len()
        };
        let mut nodes: Vec<NodePhenotype> = Vec::new();
        let mut k: usize = 0;
        while k < node_count
            invariant
                k <= node_count,
                node_count <= self.nodes@.len(),
                node_count <= other.nodes@.len(),
                nodes@.len() == k,
                forall|i: int| 0 <= i < k ==> (#[trigger] nodes@[i]).in_range(*config),
                forall|i: int|
                    0 <= i < k ==> (#[trigger] nodes@[i]).position_x == (self.nodes@[i].position_x
                        + other.nodes@[i].position_x) / 2 && nodes@[i].position_y == (
                    self.nodes@[i].position_y + other.nodes@[i].position_y) / 2 && (nodes@[i]
                        .friction == self.nodes@[i].friction || nodes@[i].friction
                        == other.nodes@[i].friction),
            decreases node_count - k,
        {
            nodes.push(self.nodes[k].cross(&other.nodes[k], config, chance));
            k += 1;
        }
        let mut muscles: Vec<MusclePhenotype> = Vec::new();
        let mut k: usize = 0;
        while k < muscle_count
            invariant
                k <= muscle_count,
                muscle_count <= self.muscles@.len(),
                muscle_count <= other.muscles@.len(),
                muscles@.len() == k,
                forall|j: int|
                    0 <= j < k ==> ((#[trigger] muscles@[j]).first_node
                        == self.muscles@[j].first_node && muscles@[j].second_node
                        == self.muscles@[j].second_node) || (muscles@[j].first_node
                        == other.muscles@[j].first_node && muscles@[j].second_node
                        == other.muscles@[j].second_node),
            decreases muscle_count - k,
        {
            muscles.push(self.muscles[k].cross(&other.muscles[k], config, chance));
            k += 1;
        }
        proof {
            if self.muscles_valid() && other.muscles_valid() && muscle_count > 0 {
                assert(muscle_indices_valid(self.muscles@[0], self.nodes@.len() as int));
                assert(muscle_indices_valid(other.muscles@[0], other.nodes@.len() as int));
            }
        }
        CreatureChromosome {
            fitness: 0,
            internal_clock_size: DEFAULT_INTERNAL_CLOCK,
            nodes,
            muscles,
        }
    }
}

impl Breedable for CreatureChromosome {
    /// Both children come from independent crossovers of the same two
    /// parents: the coin flips are drawn anew for each child, so the
    /// children may coincide or differ.
    fn breed(&self, other: &Self, config: &Config, chance: i64) -> (children: (Self, Self))
        ensures
            children.0.fitness == 0 && children.1.fitness == 0,
            children.0.nodes@.len() == min(self.nodes@.len() as int, other.nodes@.len() as int),
            children.1.nodes@.len() == min(self.nodes@.len() as int, other.nodes@.len() as int),
            children.0.muscles@.len() == min(
                self.muscles@.len() as int,
                other.muscles@.len() as int,
            ),
            children.1.muscles@.len() == min(
                self.muscles@.len() as int,
                other.muscles@.len() as int,
            ),
            forall|i: int|
                0 <= i < children.0.nodes@.len() ==> (#[trigger] children.0.nodes@[i]).in_range(
                    *config,
                ),
            forall|i: int|
                0 <= i < children.1.nodes@.len() ==> (#[trigger] children.1.nodes@[i]).in_range(
                    *config,
                ),
            self.muscles_valid() && other.muscles_valid() ==> children.0.repairable()
                && children.1.repairable(),
    {
        (self.cross(other, config, chance), self.cross(other, config, chance))
    }
}

impl Mutable for CreatureChromosome {
    open spec fn mutate_req(&self) -> bool {
        true
    }

    /// Mutates every gene in place behind per-field coins, then applies the
    /// gated structural steps: removing one random node (never below the
    /// minimum), removing one random muscle (never below the minimum),
    /// appending a fresh random node, and appending a fresh random muscle
    /// between two distinct existing nodes.
    #[verifier::loop_isolation(false)]
    fn mutate(&self, config: &Config, chance: i64) -> (m: Self)
        ensures
            m.fitness == 0,
            m.internal_clock_size == DEFAULT_INTERNAL_CLOCK,
            m.nodes@.len() <= self.nodes@.len() + 1,
            m.nodes@.len() + 1 >= self.nodes@.len(),
            m.nodes@.len() >= min(self.nodes@.len() as int, MIN_NODES as int),
            m.muscles@.len() <= self.muscles@.len() + 1,
            m.muscles@.len() + 1 >= self.muscles@.len(),
            m.muscles@.len() >= min(self.muscles@.len() as int, MIN_MUSCLES as int),
            forall|i: int| 0 <= i < m.nodes@.len() ==> (#[trigger] m.nodes@[i]).in_range(*config),
            self.repairable() ==> m.repairable(),
    {
        let mut nodes: Vec<NodePhenotype> = Vec::new();
        let mut k: usize = 0;
        while k < self.nodes.len()
            invariant
                k <= self.nodes@.len(),
                nodes@.len() == k,
                forall|i: int| 0 <= i < k ==> (#[trigger] nodes@[i]).in_range(*config),
            decreases self.nodes@.len() - k,
        {
            nodes.push(self.nodes[k].mutate(config, chance));
            k += 1;
        }
        let mut muscles: Vec<MusclePhenotype> = Vec::new();
        let mut k: usize = 0;
        while k < self.muscles.len()
            invariant
                k <= self.muscles@.len(),
                muscles@.len() == k,
            decreases self.muscles@.len() - k,
        {
            muscles.push(self.muscles[k].mutate(config, chance));
            k += 1;
        }
        let elimination_threshold = scaled_chance(
            chance,
            config.elimination_mutation_chance_modifier,
        );
        if nodes.len() > MIN_NODES && random_in_range(0, UNIT) > elimination_threshold {
            let remove_at = random_index(nodes.len());
            nodes.remove(remove_at);
        }
        if muscles.len() > MIN_MUSCLES && random_in_range(0, UNIT) > elimination_threshold {
            let remove_at = random_index(muscles.len());
            muscles.remove(remove_at);
        }
        let creation_threshold = scaled_chance(chance, config.creation_mutation_chance_modifier);
        if random_in_range(0, UNIT) > creation_threshold {
            nodes.push(NodePhenotype::random(config));
        }
        if nodes.len() >= MIN_NODES && random_in_range(0, UNIT) > creation_threshold {
            let mut muscle = MusclePhenotype::random(config);
            let first = random_index(nodes.len());
            let r = random_index(nodes.len() - 1);
            muscle.first_node = first;
            muscle.second_node = if r >= first {
                r + 1
            } else {
                r
            };
            muscles.push(muscle);
        }
        CreatureChromosome {
            fitness: 0,
            internal_clock_size: DEFAULT_INTERNAL_CLOCK,
            nodes,
            muscles,
        }
    }
}

impl RandomCreatable for CreatureChromosome {
    /// A fresh random creature: a handful of random nodes and muscles,
    /// repaired into a structurally valid chromosome.
    #[verifier::loop_isolation(false)]
    fn random(config: &Config) -> (r: Self)
        ensures
            r.is_correct_spec(*config),
            r.fitness == 0,
            r.nodes@.len() == RANDOM_NODE_COUNT,
            r.muscles@.len() >= RANDOM_MUSCLE_COUNT,
    {
        let mut nodes: Vec<NodePhenotype> = Vec::new();
        let mut k: usize = 0;
        while k < RANDOM_NODE_COUNT
            invariant
                k <= RANDOM_NODE_COUNT,
                nodes@.len() == k,
            decreases RANDOM_NODE_COUNT - k,
        {
            nodes.push(NodePhenotype::random(config));
            k += 1;
        }
        let mut muscles: Vec<MusclePhenotype> = Vec::new();
        let mut k: usize = 0;
        while k < RANDOM_MUSCLE_COUNT
            invariant
                k <= RANDOM_MUSCLE_COUNT,
                muscles@.len() == k,
            decreases RANDOM_MUSCLE_COUNT - k,
        {
            muscles.push(MusclePhenotype::random(config));
            k += 1;
        }
        let mut creature = CreatureChromosome {
            fitness: 0,
            internal_clock_size: DEFAULT_INTERNAL_CLOCK,
            nodes,
            muscles,
        };
        creature.correct(config);
        creature
    }
}

impl Evaluatable for CreatureChromosome {
    open spec fn fitness_spec(&self) -> i64 {
        self.fitness
    }

    fn get_fitness(&self) -> (r: i64) {
        self.fitness
    }
}

impl Individual for CreatureChromosome {
}

impl Selective for CreatureChromosome {
    open spec fn characteristic_spec(&self) -> usize {
        self.nodes@.len() as usize
    }

    /// A creature's species is keyed by its node count.
    fn characteristic(&self) -> (r: usize)
        ensures
            r == self.nodes@.len(),
    {
        self.nodes.len()
    }
}

} // verus!
