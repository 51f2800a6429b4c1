use vstd::prelude::*;

verus! {

/// Failures of the worker pool's task queue.
#[derive(Debug, Clone, PartialEq, Eq)]
pub enum RunError {
    /// The task could not be queued: the pool is shut down.
    SendTaskFail(String),
}

} // verus!
