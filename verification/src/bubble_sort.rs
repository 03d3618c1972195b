//! Bubble sort: repeated passes bubble the largest remaining element to
//! the end of the unsorted region.

use vstd::prelude::*;
use vstd::pervasive::VecAdditionalExecFns;
use vstd::seq_lib::group_to_multiset_ensures;
use vstd::multiset::group_multiset_axioms;

use crate::sort_strategy::Sortable;
use crate::sort_strategy::SortStrategy;
use crate::sort_strategy::sorted_by_le;

verus! {

/// The bubble-sort strategy.
#[derive(Clone, Copy)]
pub struct BubbleSort;

/// Swapping two elements of a sequence preserves its multiset.
proof fn lemma_swap_preserves_multiset<T>(s: Seq<T>, i: int, j: int)
    requires
        0 <= i < s.len(),
        0 <= j < s.len(),
    ensures
        s.update(i, s[j]).update(j, s[i]).to_multiset() == s.to_multiset(),
{
    broadcast use group_to_multiset_ensures;
    broadcast use group_multiset_axioms;

    let a = s[i];
    let b = s[j];
    let s1 = s.update(i, b);
    assert(s1.to_multiset() == s.to_multiset().insert(b).remove(a));
    if i == j {
        assert(s1.update(j, a).to_multiset() == s1.to_multiset().insert(a).remove(b));
        assert(s1.update(j, a).to_multiset() =~= s.to_multiset());
    } else {
        assert(s1[j] == b);
        assert(s1.update(j, a).to_multiset() == s1.to_multiset().insert(a).remove(b));
        assert(s.contains(a));
        assert(s.to_multiset().count(a) > 0);
        assert(s.contains(b));
        assert(s.to_multiset().count(b) > 0);
        assert(s1.update(j, a).to_multiset() =~= s.to_multiset());
    }
}

impl<T: Sortable> SortStrategy<T> for BubbleSort {
    /// Sorts items with the bubble-sort algorithm.
    fn perform_sort(&self, input: &mut Vec<T>) {
        let n = input.len();
        if n == 0 {
            return ;
        }
        let mut i: usize = n;
        while i > 1
            invariant
                1 <= i <= n,
                n == input.len(),
                input@.to_multiset() == old(input)@.to_multiset(),
                forall|p: int, q: int|
                    i <= p < q < n ==> #[trigger] input@[p].le_spec(#[trigger] input@[q]),
                forall|p: int, q: int|
                    0 <= p < i <= q < n ==> #[trigger] input@[p].le_spec(#[trigger] input@[q]),
            decreases i,
        {
            let last = i - 1;
            let mut j: usize = 0;
            while j < last
                invariant
                    0 <= j <= last,
                    last == i - 1,
                    1 <= i <= n,
                    n == input.len(),
                    input@.to_multiset() == old(input)@.to_multiset(),
                    forall|p: int, q: int|
                        i <= p < q < n ==> #[trigger] input@[p].le_spec(#[trigger] input@[q]),
                    forall|p: int, q: int|
                        0 <= p < i <= q < n ==> #[trigger] input@[p].le_spec(
                            #[trigger] input@[q],
                        ),
                    forall|p: int| 0 <= p < j ==> #[trigger] input@[p].le_spec(input@[j as int]),
                decreases last - j,
            {
                let ghost s0 = input@;
                let a = input[j];
                let b = input[j + 1];
                if !a.le(&b) {
                    proof {
                        T::lemma_le_total(a, b);
                        lemma_swap_preserves_multiset(s0, j as int, j + 1);
                    }
                    input.set(j, b);
                    input.set(j + 1, a);
                    proof {
                        assert(input@ =~= s0.update(j as int, b).update(j + 1, a));
                        assert forall|p: int| 0 <= p < j + 1 implies #[trigger] input@[p].le_spec(
                            input@[j + 1],
                        ) by {
                            if p < j {
                                assert(s0[p].le_spec(s0[j as int]));
                            }
                        }
                    }
                } else {
                    proof {
                        assert forall|p: int| 0 <= p < j + 1 implies #[trigger] input@[p].le_spec(
                            input@[j + 1],
                        ) by {
                            if p < j {
                                T::lemma_le_transitive(s0[p], s0[j as int], s0[j + 1]);
                            }
                        }
                    }
                }
                j += 1;
            }
            proof {
                assert forall|p: int, q: int|
                    0 <= p < last <= q < n implies #[trigger] input@[p].le_spec(
                    #[trigger] input@[q],
                ) by {
                    if q == last {
                        assert(input@[p].le_spec(input@[last as int]));
                    }
                }
            }
            i = last;
        }
    }
}

} // verus!
