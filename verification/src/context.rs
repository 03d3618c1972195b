//! The context of the strategy pattern: holds the configured sorting
//! algorithm and runs it over dates.

use vstd::prelude::*;

use crate::bubble_sort::BubbleSort;
use crate::date::Date;
use crate::merge_sort::MergeSort;
use crate::sort_strategy::SortStrategy;
use crate::sort_strategy::sorted_by_le;

verus! {

/// One of the sorting strategies a context can be configured with.
#[derive(Clone, Copy)]
pub enum Algorithm {
    Bubble(BubbleSort),
    Merge(MergeSort),
}

impl Algorithm {
    /// Runs the carried strategy.
    pub fn perform_sort(&self, input: &mut Vec<Date>)
        ensures
            sorted_by_le(final(input)@),
            final(input)@.to_multiset() == old(input)@.to_multiset(),
    {
        match self {
            Algorithm::Bubble(bubble) => bubble.perform_sort(input),
            Algorithm::Merge(merge) => merge.perform_sort(input),
        }
    }
}

/// Runs whichever sorting strategy it was configured with.
pub struct Context {
    pub sort_algorithm: Option<Algorithm>,
}

impl Context {
    /// A context with no strategy configured yet.
    pub fn new() -> (c: Context)
        ensures
            c.sort_algorithm is None,
    {
        Context { sort_algorithm: None }
    }

    /// Runs the configured sorting algorithm; a strategy must have been set
    /// before this is called.
    pub fn sort(&self, data: &mut Vec<Date>)
        requires
            self.sort_algorithm is Some,
        ensures
            sorted_by_le(final(data)@),
            final(data)@.to_multiset() == old(data)@.to_multiset(),
    {
        match &self.sort_algorithm {
            Some(sort_algorithm) => sort_algorithm.perform_sort(data),
            None => {
                proof {
                    assert(false);
                }
            },
        }
    }

    /// Configures the strategy to sort with.
    pub fn set_sort_algorithm(&mut self, sort_algorithm: Algorithm)
        ensures
            final(self).sort_algorithm == Some(sort_algorithm),
    {
        self.sort_algorithm = Some(sort_algorithm);
    }

    /// The configured strategy; one must have been set.
    pub fn sort_algorithm(&self) -> (r: Algorithm)
        requires
            self.sort_algorithm is Some,
        ensures
            Some(r) == self.sort_algorithm,
    {
        match &self.sort_algorithm {
            Some(sort_algorithm) => *sort_algorithm,
            None => {
                proof {
                    assert(false);
                }
                Algorithm::Bubble(BubbleSort)
            },
        }
    }
}

} // verus!
