//! The policy of the strategy pattern: picks a sorting strategy for its
//! context from the number of items.

use vstd::prelude::*;

use crate::bubble_sort::BubbleSort;
use crate::context::Algorithm;
use crate::context::Context;
use crate::date::Date;
use crate::merge_sort::MergeSort;

verus! {

/// Inputs larger than this are sorted with merge sort.
pub const SIZE_THRESHOLD: usize = 10;

/// Owns a context and configures its sorting strategy.
pub struct Policy {
    pub context: Context,
}

impl Policy {
    /// A policy over the given context.
    pub fn new(context: Context) -> (p: Policy)
        ensures
            p.context == context,
    {
        Policy { context }
    }

    /// Chooses a strategy depending on the number of items: merge sort
    /// above the size threshold, bubble sort otherwise.
    pub fn configure(&mut self, data: &Vec<Date>)
        ensures
            final(self).context.sort_algorithm == Some(
                if data@.len() > SIZE_THRESHOLD {
                    Algorithm::Merge(MergeSort)
                } else {
                    Algorithm::Bubble(BubbleSort)
                },
            ),
    {
        let sort_algorithm: Algorithm = if data.len() > SIZE_THRESHOLD {
            Algorithm::Merge(MergeSort)
        } else {
            Algorithm::Bubble(BubbleSort)
        };
        self.context.set_sort_algorithm(sort_algorithm);
    }
}

} // verus!
