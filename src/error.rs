use vstd::prelude::*;

verus! {

/// The ways an operation of the pool can fail.
#[derive(Debug, Clone, Copy, PartialEq, Eq, Structural)]
pub enum PoolError {
    /// A pool was asked for with zero workers.
    InvalidConfiguration,
    /// A job was handed to a queue that no longer accepts jobs.
    QueueDisconnected,
}

} // verus!
