//! Merge sort: the vector is split in half, each half sorted recursively,
//! and the sorted halves merged in place.

use vstd::prelude::*;
use vstd::seq_lib::group_to_multiset_ensures;
use vstd::seq_lib::lemma_multiset_commutative;
use vstd::multiset::group_multiset_axioms;

use crate::sort_strategy::Sortable;
use crate::sort_strategy::SortStrategy;
use crate::sort_strategy::sorted_by_le;

verus! {

/// The merge-sort strategy.
#[derive(Clone, Copy)]
pub struct MergeSort;

impl<T: Sortable> SortStrategy<T> for MergeSort {
    /// Sorts items with the merge-sort algorithm.
    fn perform_sort(&self, input: &mut Vec<T>) {
        mergesort(input);
    }
}

proof fn lemma_push_concat_multiset<T>(a: Seq<T>, b: Seq<T>, x: T)
    ensures
        (a.push(x) + b).to_multiset() == (a + b).to_multiset().insert(x),
{
    broadcast use group_to_multiset_ensures;
    broadcast use group_multiset_axioms;

    lemma_multiset_commutative(a.push(x), b);
    lemma_multiset_commutative(a, b);
    assert(a.push(x).to_multiset() == a.to_multiset().insert(x));
    assert(a.to_multiset().insert(x).add(b.to_multiset()) =~= a.to_multiset().add(
        b.to_multiset(),
    ).insert(x));
}

proof fn lemma_concat_push_multiset<T>(a: Seq<T>, b: Seq<T>, x: T)
    ensures
        (a + b.push(x)).to_multiset() == (a + b).to_multiset().insert(x),
{
    broadcast use group_to_multiset_ensures;
    broadcast use group_multiset_axioms;

    lemma_multiset_commutative(a, b.push(x));
    lemma_multiset_commutative(a, b);
    assert(b.push(x).to_multiset() == b.to_multiset().insert(x));
    assert(a.to_multiset().add(b.to_multiset().insert(x)) =~= a.to_multiset().add(
        b.to_multiset(),
    ).insert(x));
}

/// Merges the two sorted halves of a vector, split at `middle`, into one
/// sorted whole.
pub fn merge<T: Sortable>(input: &mut Vec<T>, middle: usize)
    requires
        middle <= old(input)@.len(),
        sorted_by_le(old(input)@.subrange(0, middle as int)),
        sorted_by_le(old(input)@.subrange(middle as int, old(input)@.len() as int)),
    ensures
        sorted_by_le(final(input)@),
        final(input)@.to_multiset() == old(input)@.to_multiset(),
{
    let n = input.len();
    let ghost s = input@;
    let ghost left_half = s.subrange(0, middle as int);
    let ghost right_half = s.subrange(middle as int, n as int);
    let mut result: Vec<T> = Vec::with_capacity(n);
    let mut left_index: usize = 0;
    let mut right_index: usize = middle;
    proof {
        assert(s.subrange(0, 0) + s.subrange(middle as int, middle as int) =~= Seq::<T>::empty());
        assert(result@.to_multiset() =~= (s.subrange(0, 0) + s.subrange(
            middle as int,
            middle as int,
        )).to_multiset());
    }
    while left_index < middle && right_index < n
        invariant
            0 <= left_index <= middle <= right_index <= n,
            n == input.len(),
            s == input@,
            left_half == s.subrange(0, middle as int),
            right_half == s.subrange(middle as int, n as int),
            sorted_by_le(left_half),
            sorted_by_le(right_half),
            result@.to_multiset() == (s.subrange(0, left_index as int) + s.subrange(
                middle as int,
                right_index as int,
            )).to_multiset(),
            sorted_by_le(result@),
            forall|k: int|
                left_index < middle && 0 <= k < result@.len() ==> (#[trigger] result@[k]).le_spec(
                    s[left_index as int],
                ),
            forall|k: int|
                right_index < n && 0 <= k < result@.len() ==> (#[trigger] result@[k]).le_spec(
                    s[right_index as int],
                ),
        decreases middle - left_index + (n - right_index),
    {
        let ghost r0 = result@;
        let a = input[left_index];
        let b = input[right_index];
        proof {
            assert(left_half[left_index as int] == s[left_index as int]);
            assert(right_half[right_index - middle] == s[right_index as int]);
        }
        if a.le(&b) {
            result.push(a);
            proof {
                assert(s.subrange(0, left_index as int).push(a) =~= s.subrange(
                    0,
                    left_index as int + 1,
                ));
                lemma_push_concat_multiset(
                    s.subrange(0, left_index as int),
                    s.subrange(middle as int, right_index as int),
                    a,
                );
                broadcast use group_to_multiset_ensures;

                assert(result@.to_multiset() =~= (s.subrange(0, left_index as int + 1)
                    + s.subrange(middle as int, right_index as int)).to_multiset());
                assert(sorted_by_le(result@)) by {
                    assert(forall|i: int| 0 <= i < r0.len() ==> result@[i] == r0[i]);
                }
                if left_index + 1 < middle {
                    assert(left_half[left_index as int].le_spec(left_half[left_index + 1]));
                    assert forall|k: int| 0 <= k < result@.len() implies (
                    #[trigger] result@[k]).le_spec(s[left_index + 1]) by {
                        if k < r0.len() {
                            T::lemma_le_transitive(r0[k], s[left_index as int], s[left_index + 1]);
                        }
                    }
                }
                assert forall|k: int| right_index < n && 0 <= k < result@.len() implies (
                #[trigger] result@[k]).le_spec(s[right_index as int]) by {}
            }
            left_index += 1;
        } else {
            proof {
                T::lemma_le_total(a, b);
            }
            result.push(b);
            proof {
                assert(s.subrange(middle as int, right_index as int).push(b) =~= s.subrange(
                    middle as int,
                    right_index as int + 1,
                ));
                lemma_concat_push_multiset(
                    s.subrange(0, left_index as int),
                    s.subrange(middle as int, right_index as int),
                    b,
                );
                broadcast use group_to_multiset_ensures;

                assert(result@.to_multiset() =~= (s.subrange(0, left_index as int) + s.subrange(
                    middle as int,
                    right_index as int + 1,
                )).to_multiset());
                assert(sorted_by_le(result@)) by {
                    assert(forall|i: int| 0 <= i < r0.len() ==> result@[i] == r0[i]);
                }
                if right_index + 1 < n {
                    assert(right_half[right_index - middle].le_spec(right_half[right_index + 1
                        - middle]));
                    assert forall|k: int| 0 <= k < result@.len() implies (
                    #[trigger] result@[k]).le_spec(s[right_index + 1]) by {
                        if k < r0.len() {
                            T::lemma_le_transitive(r0[k], s[right_index as int], s[right_index + 1]);
                        }
                    }
                }
                assert forall|k: int| left_index < middle && 0 <= k < result@.len() implies (
                #[trigger] result@[k]).le_spec(s[left_index as int]) by {}
            }
            right_index += 1;
        }
    }
    while left_index < middle
        invariant
            0 <= left_index <= middle <= right_index <= n,
            n == input.len(),
            s == input@,
            left_half == s.subrange(0, middle as int),
            right_half == s.subrange(middle as int, n as int),
            sorted_by_le(left_half),
            left_index < middle ==> right_index == n,
            result@.to_multiset() == (s.subrange(0, left_index as int) + s.subrange(
                middle as int,
                right_index as int,
            )).to_multiset(),
            sorted_by_le(result@),
            forall|k: int|
                left_index < middle && 0 <= k < result@.len() ==> (#[trigger] result@[k]).le_spec(
                    s[left_index as int],
                ),
            forall|k: int|
                right_index < n && 0 <= k < result@.len() ==> (#[trigger] result@[k]).le_spec(
                    s[right_index as int],
                ),
        decreases middle - left_index,
    {
        let ghost r0 = result@;
        let a = input[left_index];
        proof {
            assert(left_half[left_index as int] == s[left_index as int]);
        }
        result.push(a);
        proof {
            assert(s.subrange(0, left_index as int).push(a) =~= s.subrange(
                0,
                left_index as int + 1,
            ));
            lemma_push_concat_multiset(
                s.subrange(0, left_index as int),
                s.subrange(middle as int, right_index as int),
                a,
            );
            broadcast use group_to_multiset_ensures;

            assert(result@.to_multiset() =~= (s.subrange(0, left_index as int + 1) + s.subrange(
                middle as int,
                right_index as int,
            )).to_multiset());
            assert(sorted_by_le(result@)) by {
                assert(forall|i: int| 0 <= i < r0.len() ==> result@[i] == r0[i]);
            }
            if left_index + 1 < middle {
                assert(left_half[left_index as int].le_spec(left_half[left_index + 1]));
                assert forall|k: int| 0 <= k < result@.len() implies (
                #[trigger] result@[k]).le_spec(s[left_index + 1]) by {
                    if k < r0.len() {
                        T::lemma_le_transitive(r0[k], s[left_index as int], s[left_index + 1]);
                    }
                }
            }
        }
        left_index += 1;
    }
    while right_index < n
        invariant
            left_index == middle <= right_index <= n,
            n == input.len(),
            s == input@,
            right_half == s.subrange(middle as int, n as int),
            sorted_by_le(right_half),
            result@.to_multiset() == (s.subrange(0, middle as int) + s.subrange(
                middle as int,
                right_index as int,
            )).to_multiset(),
            sorted_by_le(result@),
            forall|k: int|
                right_index < n && 0 <= k < result@.len() ==> (#[trigger] result@[k]).le_spec(
                    s[right_index as int],
                ),
        decreases n - right_index,
    {
        let ghost r0 = result@;
        let b = input[right_index];
        proof {
            assert(right_half[right_index - middle] == s[right_index as int]);
        }
        result.push(b);
        proof {
            assert(s.subrange(middle as int, right_index as int).push(b) =~= s.subrange(
                middle as int,
                right_index as int + 1,
            ));
            lemma_concat_push_multiset(
                s.subrange(0, middle as int),
                s.subrange(middle as int, right_index as int),
                b,
            );
            broadcast use group_to_multiset_ensures;

            assert(result@.to_multiset() =~= (s.subrange(0, middle as int) + s.subrange(
                middle as int,
                right_index as int + 1,
            )).to_multiset());
            assert(sorted_by_le(result@)) by {
                assert(forall|i: int| 0 <= i < r0.len() ==> result@[i] == r0[i]);
            }
            if right_index + 1 < n {
                assert(right_half[right_index - middle].le_spec(right_half[right_index + 1
                    - middle]));
                assert forall|k: int| 0 <= k < result@.len() implies (
                #[trigger] result@[k]).le_spec(s[right_index + 1]) by {
                    if k < r0.len() {
                        T::lemma_le_transitive(r0[k], s[right_index as int], s[right_index + 1]);
                    }
                }
            }
        }
        right_index += 1;
    }
    proof {
        assert(s.subrange(0, middle as int) + s.subrange(middle as int, n as int) =~= s);
    }
    *input = result;
}

/// Sorts a vector with the merge-sort algorithm.
pub fn mergesort<T: Sortable>(input: &mut Vec<T>)
    ensures
        sorted_by_le(final(input)@),
        final(input)@.to_multiset() == old(input)@.to_multiset(),
    decreases old(input)@.len(),
{
    if input.len() < 2 {
        return ;
    }
    let ghost orig = input@;
    let middle = input.len() / 2;
    let mut right = input.split_off(middle);
    mergesort(input);
    mergesort(&mut right);
    let ghost left_sorted = input@;
    let ghost right_sorted = right@;
    let middle2 = input.len();
    input.append(&mut right);
    proof {
        assert(input@.subrange(0, middle2 as int) =~= left_sorted);
        assert(input@.subrange(middle2 as int, input@.len() as int) =~= right_sorted);
    }
    merge(input, middle2);
    proof {
        lemma_multiset_commutative(left_sorted, right_sorted);
        lemma_multiset_commutative(
            orig.subrange(0, middle as int),
            orig.subrange(middle as int, orig.len() as int),
        );
        assert(orig.subrange(0, middle as int) + orig.subrange(middle as int, orig.len() as int)
            =~= orig);
    }
}

} // verus!
