//! Connectivity of the node/muscle graph.
//!
//! Nodes are vertices, muscles are undirected edges between node indices.
//! Reachability is defined through explicit walks, and a depth-first
//! traversal with an explicit stack decides it, so the repair pass can prove
//! both that it terminates and that what it leaves behind is one connected
//! component.

use vstd::prelude::*;
use crate::muscle_phenotype::MusclePhenotype;

verus! {

broadcast use vstd::seq_lib::lemma_seq_contains_after_push;

/// Whether muscle `m` joins nodes `a` and `b`, in either direction.
pub open spec fn joins(m: MusclePhenotype, a: int, b: int) -> bool {
    ||| m.first_node as int == a && m.second_node as int == b
    ||| m.first_node as int == b && m.second_node as int == a
}

/// Whether some muscle of `ms` joins nodes `a` and `b`.
pub open spec fn edge(ms: Seq<MusclePhenotype>, a: int, b: int) -> bool {
    exists|k: int| 0 <= k < ms.len() && joins(#[trigger] ms[k], a, b)
}

/// Every muscle of `ms` points at nodes below `n`.
pub open spec fn endpoints_below(ms: Seq<MusclePhenotype>, n: int) -> bool {
    forall|k: int|
        0 <= k < ms.len() ==> (#[trigger] ms[k]).first_node < n && ms[k].second_node < n
}

/// `p` walks from `a` to `b` along muscles of `ms`.
pub open spec fn is_walk(ms: Seq<MusclePhenotype>, p: Seq<int>, a: int, b: int) -> bool {
    &&& p.len() >= 1
    &&& p[0] == a
    &&& p[p.len() - 1] == b
    &&& forall|i: int| 0 <= i < p.len() - 1 ==> edge(ms, #[trigger] p[i], p[i + 1])
}

/// Node `b` can be reached from node `a` along muscles of `ms`.
pub open spec fn reachable(ms: Seq<MusclePhenotype>, a: int, b: int) -> bool {
    exists|p: Seq<int>| is_walk(ms, p, a, b)
}

/// Every node is reachable along `ms` from node 0: the graph with `n` nodes
/// is one connected component.
pub open spec fn connected_from_zero(ms: Seq<MusclePhenotype>, n: int) -> bool {
    forall|i: int| 0 <= i < n ==> reachable(ms, 0, i)
}

/// Whether node `i` is the lowest-numbered node of its connected
/// component: no lower-numbered node reaches it.
pub open spec fn component_root(ms: Seq<MusclePhenotype>, i: int) -> bool {
    forall|j: int| 0 <= j < i ==> !reachable(ms, j, i)
}

/// How many connected components the nodes `0..n` form under `ms`: each
/// component is counted once, at its lowest-numbered node.
pub open spec fn count_components(ms: Seq<MusclePhenotype>, n: int) -> int
    decreases n,
{
    if n <= 0 {
        0
    } else {
        count_components(ms, n - 1) + if component_root(ms, n - 1) {
            1int
        } else {
            0int
        }
    }
}

/// An edge can be taken in either direction.
pub proof fn lemma_edge_sym(ms: Seq<MusclePhenotype>, a: int, b: int)
    requires
        edge(ms, a, b),
    ensures
        edge(ms, b, a),
{
    let k = choose|k: int| 0 <= k < ms.len() && joins(#[trigger] ms[k], a, b);
    assert(joins(ms[k], b, a));
}

/// Every node reaches itself.
pub proof fn lemma_reachable_refl(ms: Seq<MusclePhenotype>, a: int)
    ensures
        reachable(ms, a, a),
{
    let p = seq![a];
    assert(is_walk(ms, p, a, a));
}

/// A single edge gives reachability.
pub proof fn lemma_reachable_step(ms: Seq<MusclePhenotype>, a: int, b: int)
    requires
        edge(ms, a, b),
    ensures
        reachable(ms, a, b),
{
    let p = seq![a, b];
    assert(p.len() == 2);
    assert(edge(ms, p[0], p[1]));
    assert(is_walk(ms, p, a, b));
}

/// Reachability is symmetric: walks reverse.
pub proof fn lemma_reachable_sym(ms: Seq<MusclePhenotype>, a: int, b: int)
    requires
        reachable(ms, a, b),
    ensures
        reachable(ms, b, a),
{
    let p = choose|p: Seq<int>| is_walk(ms, p, a, b);
    let q = p.reverse();
    assert forall|i: int| 0 <= i < q.len() - 1 implies edge(ms, #[trigger] q[i], q[i + 1]) by {
        let j = p.len() - 2 - i;
        assert(q[i] == p[j + 1]);
        assert(q[i + 1] == p[j]);
        assert(edge(ms, p[j], p[j + 1]));
        lemma_edge_sym(ms, p[j], p[j + 1]);
    }
    assert(q[0] == p[p.len() - 1]);
    assert(q[q.len() - 1] == p[0]);
    assert(is_walk(ms, q, b, a));
}

/// Reachability is transitive: walks concatenate.
pub proof fn lemma_reachable_trans(ms: Seq<MusclePhenotype>, a: int, b: int, c: int)
    requires
        reachable(ms, a, b),
        reachable(ms, b, c),
    ensures
        reachable(ms, a, c),
{
    let p1 = choose|p: Seq<int>| is_walk(ms, p, a, b);
    let p2 = choose|p: Seq<int>| is_walk(ms, p, b, c);
    let q = p1 + p2.subrange(1, p2.len() as int);
    assert(q.len() == p1.len() + p2.len() - 1);
    assert(q[0] == a);
    assert(q[q.len() - 1] == c) by {
        if p2.len() == 1 {
            assert(q =~= p1);
        } else {
            assert(q[q.len() - 1] == p2[p2.len() - 1]);
        }
    }
    assert forall|i: int| 0 <= i < q.len() - 1 implies edge(ms, #[trigger] q[i], q[i + 1]) by {
        if i < p1.len() - 1 {
            assert(q[i] == p1[i]);
            assert(q[i + 1] == p1[i + 1]);
            assert(edge(ms, p1[i], p1[i + 1]));
        } else if i == p1.len() - 1 {
            assert(q[i] == p1[p1.len() - 1]);
            assert(q[i + 1] == p2[1]);
            assert(edge(ms, p2[0], p2[1]));
        } else {
            let j = i - p1.len() + 1;
            assert(q[i] == p2[j]);
            assert(q[i + 1] == p2[j + 1]);
            assert(edge(ms, p2[j], p2[j + 1]));
        }
    }
    assert(is_walk(ms, q, a, c));
}

/// Growing the muscle list by new muscles at the end keeps every
/// reachability fact.
pub proof fn lemma_reachable_mono(ms1: Seq<MusclePhenotype>, ms2: Seq<MusclePhenotype>, a: int, b: int)
    requires
        ms1.len() <= ms2.len(),
        forall|k: int| 0 <= k < ms1.len() ==> ms2[k] == ms1[k],
        reachable(ms1, a, b),
    ensures
        reachable(ms2, a, b),
{
    let p = choose|p: Seq<int>| is_walk(ms1, p, a, b);
    assert forall|i: int| 0 <= i < p.len() - 1 implies edge(ms2, #[trigger] p[i], p[i + 1]) by {
        assert(edge(ms1, p[i], p[i + 1]));
        let k = choose|k: int| 0 <= k < ms1.len() && joins(#[trigger] ms1[k], p[i], p[i + 1]);
        assert(joins(ms2[k], p[i], p[i + 1]));
    }
    assert(is_walk(ms2, p, a, b));
}

/// A walk starting inside a set that is closed under edges ends inside it.
proof fn lemma_walk_in_closed_set(ms: Seq<MusclePhenotype>, s: Set<int>, p: Seq<int>, a: int, b: int)
    requires
        is_walk(ms, p, a, b),
        s.contains(a),
        forall|x: int, y: int| s.contains(x) && #[trigger] edge(ms, x, y) ==> s.contains(y),
    ensures
        s.contains(b),
    decreases p.len(),
{
    if p.len() == 1 {
        assert(b == a);
    } else {
        assert(edge(ms, p[0], p[1]));
        assert(s.contains(p[1]));
        let p2 = p.subrange(1, p.len() as int);
        assert forall|i: int| 0 <= i < p2.len() - 1 implies edge(ms, #[trigger] p2[i], p2[i + 1]) by {
            assert(p2[i] == p[i + 1]);
            assert(p2[i + 1] == p[i + 2]);
            assert(edge(ms, p[i + 1], p[i + 2]));
        }
        assert(is_walk(ms, p2, p[1], b));
        lemma_walk_in_closed_set(ms, s, p2, p[1], b);
    }
}

/// A set that contains `a` and is closed under edges contains everything
/// reachable from `a`.
pub proof fn lemma_reachable_in_closed_set(ms: Seq<MusclePhenotype>, s: Set<int>, a: int, b: int)
    requires
        s.contains(a),
        forall|x: int, y: int| s.contains(x) && #[trigger] edge(ms, x, y) ==> s.contains(y),
        reachable(ms, a, b),
    ensures
        s.contains(b),
{
    let p = choose|p: Seq<int>| is_walk(ms, p, a, b);
    lemma_walk_in_closed_set(ms, s, p, a, b);
}

/// A sequence of distinct indices below `n` has at most `n` elements.
proof fn lemma_distinct_bounded_len(s: Seq<usize>, n: nat)
    requires
        s.no_duplicates(),
        forall|i: int| 0 <= i < s.len() ==> s[i] < n,
    ensures
        s.len() <= n,
{
    let f = |x: usize| x as int;
    let si = s.map_values(f);
    assert(forall|x: usize, y: usize| #[trigger] f(x) == #[trigger] f(y) ==> x == y);
    s.lemma_no_duplicates_injective(f);
    si.unique_seq_to_set();
    assert(si.to_set().subset_of(vstd::set_lib::set_int_range(0, n as int))) by {
        assert forall|x: int| si.to_set().contains(x) implies vstd::set_lib::set_int_range(
            0,
            n as int,
        ).contains(x) by {
            let i = choose|i: int| 0 <= i < si.len() && si[i] == x;
            assert(s[i] < n);
        }
    }
    vstd::set_lib::lemma_int_range(0, n as int);
    vstd::set_lib::lemma_len_subset(si.to_set(), vstd::set_lib::set_int_range(0, n as int));
}

/// Whether `v` holds the index `x`.
pub fn contains_node(v: &Vec<usize>, x: usize) -> (r: bool)
    ensures
        r == v@.contains(x),
{
    let mut k: usize = 0;
    while k < v.len()
        invariant
            k <= v.len(),
            forall|i: int| 0 <= i < k ==> v@[i] != x,
        decreases v.len() - k,
    {
        if v[k] == x {
            return true;
        }
        k += 1;
    }
    false
}

/// Collects every node reachable from `seed`, by a depth-first traversal
/// with an explicit stack, in deterministic visiting order.
#[verifier::loop_isolation(false)]
#[verifier::rlimit(50)]
pub fn reachable_nodes(n: usize, muscles: &Vec<MusclePhenotype>, seed: usize) -> (r: Vec<usize>)
    requires
        seed < n,
        endpoints_below(muscles@, n as int),
    ensures
        r@.no_duplicates(),
        forall|i: int| 0 <= i < r@.len() ==> r@[i] < n && reachable(
            muscles@,
            seed as int,
            #[trigger] r@[i] as int,
        ),
        forall|x: usize| x < n && reachable(muscles@, seed as int, x as int)
            ==> r@.contains(x),
        r@.contains(seed),
{
    let mut visited: Vec<usize> = Vec::new();
    let mut stack: Vec<usize> = Vec::new();
    stack.push(seed);
    proof {
        lemma_reachable_refl(muscles@, seed as int);
        assert(stack@[0] == seed);
        assert(stack@.contains(seed));
    }
    while stack.len() > 0
        invariant
            visited@.no_duplicates(),
            visited@.len() <= n,
            forall|i: int| 0 <= i < visited@.len() ==> visited@[i] < n && reachable(
                muscles@,
                seed as int,
                #[trigger] visited@[i] as int,
            ),
            forall|i: int| 0 <= i < stack@.len() ==> stack@[i] < n && reachable(
                muscles@,
                seed as int,
                #[trigger] stack@[i] as int,
            ),
            visited@.contains(seed) || stack@.contains(seed),
            forall|x: usize, y: usize|
                visited@.contains(x) && y < n && edge(muscles@, x as int, y as int)
                    ==> visited@.contains(y) || stack@.contains(y),
        decreases n - visited.len(), stack.len(),
    {
        let ghost stack0 = stack@;
        let ghost visited0 = visited@;
        let x = stack.pop().unwrap();
        if !contains_node(&visited, x) {
            visited.push(x);
            proof {
                assert(visited@ == visited0.push(x));
                assert forall|u: usize| visited0.contains(u) implies visited@.contains(u) by {
                    let i = choose|i: int| 0 <= i < visited0.len() && visited0[i] == u;
                    assert(visited@[i] == u);
                }
                lemma_distinct_bounded_len(visited@, n as nat);
                assert(visited@.last() == x);
                assert(visited@.contains(x));
                if !visited0.contains(seed) {
                    let i = choose|i: int| 0 <= i < stack0.len() && stack0[i] == seed;
                    if i < stack0.len() - 1 {
                        assert(stack@[i] == seed);
                        assert(stack@.contains(seed));
                    } else {
                        assert(x == seed);
                    }
                }
                assert forall|xx: usize, y: usize|
                    visited@.contains(xx) && xx != x && y < n
                        && edge(muscles@, xx as int, y as int) implies visited@.contains(y)
                    || stack@.contains(y) by {
                    assert(visited0.contains(xx)) by {
                        let i = choose|i: int|
                            0 <= i < visited@.len() && visited@[i] == xx;
                        if i < visited0.len() {
                            assert(visited0[i] == xx);
                        }
                    }
                    assert(visited0.contains(y) || stack0.contains(y));
                    if visited0.contains(y) {
                        assert(visited@.contains(y));
                    } else {
                        let i = choose|i: int| 0 <= i < stack0.len() && stack0[i] == y;
                        if i < stack0.len() - 1 {
                            assert(stack@[i] == y);
                            assert(stack@.contains(y));
                        } else {
                            assert(y == x);
                            assert(visited@.contains(y));
                        }
                    }
                }
            }
            let mut k: usize = 0;
            while k < muscles.len()
                invariant
                    visited@.no_duplicates(),
                    visited@.len() <= n,
                    forall|i: int| 0 <= i < visited@.len() ==> visited@[i] < n && reachable(
                        muscles@,
                        seed as int,
                        #[trigger] visited@[i] as int,
                    ),
                    forall|i: int| 0 <= i < stack@.len() ==> stack@[i] < n && reachable(
                        muscles@,
                        seed as int,
                        #[trigger] stack@[i] as int,
                    ),
                    visited@.contains(seed) || stack@.contains(seed),
                    forall|xx: usize, y: usize|
                        visited@.contains(xx) && xx != x && y < n
                            && edge(muscles@, xx as int, y as int)
                            ==> visited@.contains(y) || stack@.contains(y),
                    forall|y: usize|
                        y < n && (exists|j: int|
                            0 <= j < k && joins(#[trigger] muscles@[j], x as int, y as int))
                            ==> visited@.contains(y) || stack@.contains(y),
                decreases muscles.len() - k,
            {
                let m = muscles[k];
                if m.first_node == x {
                    stack.push(m.second_node);
                    proof {
                        assert(joins(muscles@[k as int], x as int, m.second_node as int));
                        assert(edge(muscles@, x as int, m.second_node as int));
                        lemma_reachable_step(muscles@, x as int, m.second_node as int);
                        lemma_reachable_trans(
                            muscles@,
                            seed as int,
                            x as int,
                            m.second_node as int,
                        );
                    }
                } else if m.second_node == x {
                    stack.push(m.first_node);
                    proof {
                        assert(joins(muscles@[k as int], x as int, m.first_node as int));
                        assert(edge(muscles@, x as int, m.first_node as int));
                        lemma_reachable_step(muscles@, x as int, m.first_node as int);
                        lemma_reachable_trans(
                            muscles@,
                            seed as int,
                            x as int,
                            m.first_node as int,
                        );
                    }
                }
                k += 1;
            }
            proof {
                assert forall|xx: usize, y: usize|
                    visited@.contains(xx) && y < n && edge(muscles@, xx as int, y as int)
                        implies visited@.contains(y) || stack@.contains(y) by {
                    if xx == x {
                        let j = choose|j: int|
                            0 <= j < muscles@.len() && joins(
                                #[trigger] muscles@[j],
                                x as int,
                                y as int,
                            );
                        assert(0 <= j < muscles.len());
                    }
                }
            }
        } else {
            proof {
                assert forall|xx: usize, y: usize|
                    visited@.contains(xx) && y < n && edge(muscles@, xx as int, y as int)
                        implies visited@.contains(y) || stack@.contains(y) by {
                    assert(visited0.contains(y) || stack0.contains(y));
                    if !visited@.contains(y) {
                        let i = choose|i: int| 0 <= i < stack0.len() && stack0[i] == y;
                        if i < stack0.len() - 1 {
                            assert(stack@[i] == y);
                            assert(stack@.contains(y));
                        } else {
                            assert(y == x);
                        }
                    }
                }
                if !visited@.contains(seed) {
                    let i = choose|i: int| 0 <= i < stack0.len() && stack0[i] == seed;
                    if i < stack0.len() - 1 {
                        assert(stack@[i] == seed);
                        assert(stack@.contains(seed));
                    } else {
                        assert(x == seed);
                        assert(visited@.contains(seed));
                    }
                }
            }
        }
    }
    proof {
        let ms = muscles@;
        let s = Set::new(|j: int| 0 <= j < n && visited@.contains(j as usize));
        assert forall|x: int, y: int| s.contains(x) && #[trigger] edge(ms, x, y)
            implies s.contains(y) by {
            let k = choose|k: int| 0 <= k < ms.len() && joins(#[trigger] ms[k], x, y);
            assert(0 <= y < n);
            assert((x as usize) as int == x);
            assert((y as usize) as int == y);
            assert(visited@.contains(x as usize));
            assert(edge(ms, (x as usize) as int, (y as usize) as int));
        }
        assert(s.contains(seed as int));
        assert forall|x: usize| x < n && reachable(ms, seed as int, x as int)
            implies visited@.contains(x) by {
            lemma_reachable_in_closed_set(ms, s, seed as int, x as int);
        }
    }
    visited
}

} // verus!
