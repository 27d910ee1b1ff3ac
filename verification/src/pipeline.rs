//! The pipeline builder: stages are registered one by one, and the order of
//! registration decides how they combine.

use crate::batcher::Batcher;
use crate::combinator::{Both, Chain, Everything, Unranked};
use crate::stage::{Filter, Sorter};
use vstd::prelude::*;

verus! {

/// A pipeline under construction: the filters registered so far in conjunction, the
/// comparators registered so far in cascade, and the batch size.
pub struct Pipeline<F, S> {
    pub filter: F,
    pub sorter: S,
    pub batch_size: usize,
}

impl Pipeline<Everything, Unranked> {
    /// A pipeline without stages, which delivers its whole output in one batch.
    pub fn new() -> (pipeline: Self)
        ensures
            pipeline.batch_size == 0,
    {
        Pipeline { filter: Everything, sorter: Unranked, batch_size: 0 }
    }
}

impl<F, S> Pipeline<F, S> {
    /// Registers a filter. An entity must pass the filters registered before, and
    /// then this one.
    pub fn add_filter<G>(self, filter: G) -> (next: Pipeline<Both<F, G>, S>)
        ensures
            next.filter.first == self.filter,
            next.filter.second == filter,
            next.sorter == self.sorter,
            next.batch_size == self.batch_size,
    {
        Pipeline {
            filter: Both::new(self.filter, filter),
            sorter: self.sorter,
            batch_size: self.batch_size,
        }
    }

    /// Registers a comparator. It breaks only the ties that the comparators
    /// registered before it leave.
    pub fn add_sorter<K>(self, sorter: K) -> (next: Pipeline<F, Chain<S, K>>)
        ensures
            next.filter == self.filter,
            next.sorter.first == self.sorter,
            next.sorter.second == sorter,
            next.batch_size == self.batch_size,
    {
        Pipeline {
            filter: self.filter,
            sorter: Chain::new(self.sorter, sorter),
            batch_size: self.batch_size,
        }
    }

    /// Sets how many candidates one merge takes; zero means all that wait.
    pub fn batch_size(self, batch_size: usize) -> (next: Self)
        ensures
            next.filter == self.filter,
            next.sorter == self.sorter,
            next.batch_size == batch_size,
    {
        Pipeline { filter: self.filter, sorter: self.sorter, batch_size }
    }

    /// The batcher that runs the registered stages.
    pub fn build<T>(self) -> (batcher: Batcher<T, F, S>) where F: Filter<T>, S: Sorter<T>
        ensures
            batcher.wf(),
            batcher.filter() == self.filter,
            batcher.sorter() == self.sorter,
            batcher.batch_limit() == self.batch_size,
            batcher.query_text() == Seq::<char>::empty(),
            batcher.generated() == Seq::<T>::empty(),
            batcher.sourced() == Seq::<T>::empty(),
            batcher.taken() == 0,
            !batcher.exhausted(),
    {
        Batcher::new(self.filter, self.sorter, self.batch_size)
    }
}

} // verus!
