//! Ordering a population by fitness, best first.

use vstd::prelude::*;
use crate::creature_chromosome::CreatureChromosome;

verus! {

/// Whether `s` is ordered by fitness, best first.
pub open spec fn sorted_desc(s: Seq<CreatureChromosome>) -> bool {
    forall|i: int, j: int| 0 <= i <= j < s.len() ==> s[i].fitness >= s[j].fitness
}

/// Sorts the population by fitness, best first, by stable insertion:
/// individuals move, none is copied or invented, so the multiset of
/// individuals is exactly preserved.
#[verifier::loop_isolation(false)]
pub fn sort_by_fitness_desc(v: &mut Vec<CreatureChromosome>)
    ensures
        final(v)@.len() == old(v)@.len(),
        sorted_desc(final(v)@),
        final(v)@.to_multiset() == old(v)@.to_multiset(),
{
    broadcast use vstd::seq_lib::group_to_multiset_ensures;
    broadcast use vstd::seq_lib::to_multiset_insert;

    let mut i: usize = 1;
    while i < v.len()
        invariant
            v@.len() == old(v)@.len(),
            i <= v@.len() || v@.len() == 0,
            sorted_desc(v@.subrange(0, i as int)) || v@.len() == 0,
            v@.to_multiset() == old(v)@.to_multiset(),
        decreases v@.len() - i,
    {
        // find where the element at i belongs inside the sorted prefix
        let pivot_fitness = v[i].fitness;
        let mut p: usize = 0;
        while p < i && v[p].fitness >= pivot_fitness
            invariant
                p <= i,
                forall|q: int| 0 <= q < p ==> v@[q].fitness >= pivot_fitness,
            decreases i - p,
        {
            p += 1;
        }
        let ghost before = v@;
        let x = v.remove(i);
        let ghost removed = v@;
        v.insert(p, x);
        proof {
            assert(x.fitness == pivot_fitness);
            let s0 = before.subrange(0, i as int);
            assert(sorted_desc(s0));
            assert(forall|q: int| 0 <= q < i ==> #[trigger] s0[q] == before[q]);
            assert(v@[p as int] == x);
            assert(forall|q: int| 0 <= q < p ==> #[trigger] v@[q] == before[q]);
            assert(forall|q: int| p < q <= i ==> #[trigger] v@[q] == before[q - 1]);
            assert forall|q: int| p < q <= i implies #[trigger] v@[q].fitness
                <= pivot_fitness by {
                assert(v@[q] == before[q - 1]);
                assert(s0[p as int].fitness >= s0[q - 1].fitness);
                assert(before[p as int].fitness < pivot_fitness);
            }
            // the new prefix of length i + 1 is sorted
            assert forall|a: int, b: int| 0 <= a <= b < i + 1 implies v@[a].fitness
                >= v@[b].fitness by {
                if b < p {
                    assert(s0[a].fitness >= s0[b].fitness);
                } else if b == p {
                    if a < p {
                        assert(v@[a].fitness >= pivot_fitness);
                    }
                } else {
                    assert(v@[b].fitness <= pivot_fitness);
                    if a < p {
                        assert(v@[a].fitness >= pivot_fitness);
                    } else if a > p {
                        assert(s0[a - 1].fitness >= s0[b - 1].fitness);
                    }
                }
            }
            assert(sorted_desc(v@.subrange(0, i + 1)));
            // removing then reinserting the same element keeps the multiset
            assert(removed.to_multiset() == before.to_multiset().remove(x));
            assert(v@.to_multiset() == removed.to_multiset().insert(x));
            assert(before.to_multiset().contains(x));
            assert(v@.to_multiset() =~= before.to_multiset());
        }
        i += 1;
    }
    proof {
        if v@.len() > 0 {
            assert(v@ =~= v@.subrange(0, v@.len() as int));
        }
    }
}

/// Whether the values of `s` are ordered largest first.
pub open spec fn values_sorted_desc(s: Seq<i64>) -> bool {
    forall|i: int, j: int| 0 <= i <= j < s.len() ==> s[i] >= s[j]
}

/// Sorts a list of fitness values largest first, by stable insertion;
/// the multiset of values is exactly preserved.
#[verifier::loop_isolation(false)]
pub fn sort_values_desc(v: &mut Vec<i64>)
    ensures
        final(v)@.len() == old(v)@.len(),
        values_sorted_desc(final(v)@),
        final(v)@.to_multiset() == old(v)@.to_multiset(),
{
    broadcast use vstd::seq_lib::group_to_multiset_ensures;
    broadcast use vstd::seq_lib::to_multiset_insert;

    let mut i: usize = 1;
    while i < v.len()
        invariant
            v@.len() == old(v)@.len(),
            i <= v@.len() || v@.len() == 0,
            values_sorted_desc(v@.subrange(0, i as int)) || v@.len() == 0,
            v@.to_multiset() == old(v)@.to_multiset(),
        decreases v@.len() - i,
    {
        let pivot = v[i];
        let mut p: usize = 0;
        while p < i && v[p] >= pivot
            invariant
                p <= i,
                forall|q: int| 0 <= q < p ==> v@[q] >= pivot,
            decreases i - p,
        {
            p += 1;
        }
        let ghost before = v@;
        let x = v.remove(i);
        let ghost removed = v@;
        v.insert(p, x);
        proof {
            assert(x == pivot);
            let s0 = before.subrange(0, i as int);
            assert(values_sorted_desc(s0));
            assert(forall|q: int| 0 <= q < i ==> #[trigger] s0[q] == before[q]);
            assert(v@[p as int] == x);
            assert(forall|q: int| 0 <= q < p ==> #[trigger] v@[q] == before[q]);
            assert(forall|q: int| p < q <= i ==> #[trigger] v@[q] == before[q - 1]);
            assert forall|q: int| p < q <= i implies #[trigger] v@[q] <= pivot by {
                assert(v@[q] == before[q - 1]);
                assert(s0[p as int] >= s0[q - 1]);
                assert(before[p as int] < pivot);
            }
            assert forall|a: int, b: int| 0 <= a <= b < i + 1 implies v@[a] >= v@[b] by {
                if b < p {
                    assert(s0[a] >= s0[b]);
                } else if b == p {
                    if a < p {
                        assert(v@[a] >= pivot);
                    }
                } else {
                    assert(v@[b] <= pivot);
                    if a < p {
                        assert(v@[a] >= pivot);
                    } else if a > p {
                        assert(s0[a - 1] >= s0[b - 1]);
                    }
                }
            }
            assert(values_sorted_desc(v@.subrange(0, i + 1)));
            assert(removed.to_multiset() == before.to_multiset().remove(x));
            assert(v@.to_multiset() == removed.to_multiset().insert(x));
            assert(before.to_multiset().contains(x));
            assert(v@.to_multiset() =~= before.to_multiset());
        }
        i += 1;
    }
    proof {
        if v@.len() > 0 {
            assert(v@ =~= v@.subrange(0, v@.len() as int));
        }
    }
}

} // verus!
