//! The data model of the applier: a value is either a single scalar or
//! an ordered, finite collection of values, so collections may nest to
//! any rank. An evaluation mode chooses between strictly sequential
//! element-wise application and application on parallel workers.

use vstd::prelude::*;

verus! {

/// Either one scalar of type `T`, or an ordered collection of nested
/// values whose scalars are of type `T`. A scalar has rank 0; a
/// collection adds one nesting level per rank.
#[derive(PartialEq, Eq, Debug)]
pub enum Value<T> {
    /// A single unit of data, applied to a function at once.
    Scalar(T),
    /// An ordered, finite sequence of nested values, mapped element-wise.
    Collection(Vec<Value<T>>),
}

/// How the element-wise applications of one collection are scheduled:
/// strictly in input order on the calling thread, or distributed over
/// parallel workers. The mode never changes which result is produced,
/// only how it is computed.
#[derive(Clone, Copy, PartialEq, Eq, Debug)]
pub enum EvalMode {
    /// Apply to each element in input order, one after the other.
    Sequential,
    /// Fan the elements of the outermost collection out to parallel
    /// workers; results are still placed in input order.
    Parallel,
}

} // verus!
