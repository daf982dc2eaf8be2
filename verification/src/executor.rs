//! The executor interface: how the builder hands out independent work.

use vstd::prelude::*;

verus! {

/// Builds a vector from a function of the index. An executor may run the calls in any
/// order and in parallel; the vector it returns holds the results in index order.
pub trait Executor {
    /// Calls `builder` once for each index below `length` and collects what it returns.
    fn build_vector<T, F>(&self, length: usize, builder: F) -> (result: Vec<T>) where
        T: Send,
        F: Fn(usize) -> T + Send + Sync,

        requires
            forall|index: usize| index < length ==> call_requires(builder, (index,)),
        ensures
            result.len() == length,
            forall|index: usize|
                index < length ==> call_ensures(builder, (index,), #[trigger] result[index as int]),
    ;
}

/// The executor that makes the calls one after another, in index order.
pub struct SequentialExecutor;

impl Executor for SequentialExecutor {
    fn build_vector<T, F>(&self, length: usize, builder: F) -> (result: Vec<T>) where
        T: Send,
        F: Fn(usize) -> T + Send + Sync,
     {
        let mut result: Vec<T> = Vec::new();
        let mut index: usize = 0;
        while index < length
            invariant
                index <= length,
                result.len() == index,
                forall|i: usize| i < length ==> call_requires(builder, (i,)),
                forall|i: usize| i < index ==> call_ensures(builder, (i,), #[trigger] result[i as int]),
            decreases length - index,
        {
            let item: T = builder(index);
            result.push(item);
            index = index + 1;
        }
        result
    }
}

} // verus!
