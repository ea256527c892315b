//! Kinds of operation a query plan is built from.

use vstd::prelude::*;

verus! {

/// Operators an execution plan can schedule.
#[derive(Debug, Clone, PartialEq, Eq, Structural)]
pub enum ExecutionOperationType {
    TableScan,
    IndexScan,
    NestedLoopJoin,
    HashJoin,
    MergeJoin,
    Filter,
    Projection,
    Sort,
    HashAggregate,
    GroupAggregate,
    Limit,
}

/// Join strategies a planner can pick.
#[derive(Debug, Clone, PartialEq, Eq, Structural)]
pub enum JoinStrategy {
    NestedLoop,
    Hash,
    Merge,
    Index,
}

} // verus!
