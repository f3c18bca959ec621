//! A fixed-size worker pool, described as three verified parts:
//! the job queue that hands work from submitters to workers, the state
//! machine each worker runs, and the pool's lifecycle from construction to a
//! blocking teardown. The threads, locks and jobs themselves live with the
//! caller, which drives these parts.
mod error;
mod pool;
mod queue;
mod worker;

pub use error::PoolError;
pub use pool::{
    law_new_spawns_size_workers, law_teardown_joins_every_worker, new_model, worker_id_seq, Pool,
    PoolModel,
};
pub use queue::{
    jobs_delivered, law_close_drains, law_closed_refuses, law_delivery_in_order,
    law_end_of_stream_only_when_drained, JobQueue, QueueModel, Received,
};
pub use worker::{
    expects, law_exit_only_on_end_of_stream, law_terminated_is_final,
    law_worker_exits_only_when_drained, transition, WorkerAction, WorkerEvent, WorkerState,
};
