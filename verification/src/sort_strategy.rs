//! The sorting strategy interface of the exercise.
//!
//! A strategy sorts a vector in place; its contract promises the result is
//! sorted under the element order and is a permutation of the input.  The
//! element order is supplied by the [`Sortable`] trait, which packages a
//! total order: a specification-level relation, its totality and
//! transitivity laws, and an executable comparison that decides it.

use vstd::prelude::*;

verus! {

/// A total order on the element type, with an executable comparison.
pub trait Sortable: Sized + Copy {
    /// The ordering relation the sort is specified against.
    spec fn le_spec(self, other: Self) -> bool;

    /// Any two values compare one way or the other.
    proof fn lemma_le_total(a: Self, b: Self)
        ensures
            a.le_spec(b) || b.le_spec(a),
    ;

    /// The order is transitive.
    proof fn lemma_le_transitive(a: Self, b: Self, c: Self)
        requires
            a.le_spec(b),
            b.le_spec(c),
        ensures
            a.le_spec(c),
    ;

    /// Decides the ordering relation.
    fn le(&self, other: &Self) -> (r: bool)
        ensures
            r == self.le_spec(*other),
    ;
}

/// A sequence is sorted under the element order.
pub open spec fn sorted_by_le<T: Sortable>(s: Seq<T>) -> bool {
    forall|i: int, j: int| 0 <= i < j < s.len() ==> #[trigger] s[i].le_spec(#[trigger] s[j])
}

/// A sorting algorithm: sorts a vector of `T`s in place, yielding a sorted
/// permutation of the input.
pub trait SortStrategy<T: Sortable> {
    /// Sorts a vector of items in place.
    fn perform_sort(&self, input: &mut Vec<T>)
        ensures
            sorted_by_le(final(input)@),
            final(input)@.to_multiset() == old(input)@.to_multiset(),
    ;
}

} // verus!
