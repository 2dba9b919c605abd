//! Pipeline orchestration: the pipeline state machine, the pipeline state
//! cache, the phases and the executor that runs pipelines through them, the
//! record of phase runs, cleanup and rollback handling, dependency-ordered
//! phase scheduling, exactly-once execution, execution policies and a
//! priority job queue.

mod clock;
pub mod state;
pub mod cleanup;
pub mod parallel;
mod json;
pub mod exactly_once;
pub mod text;
pub mod policies;
pub mod queue;
pub mod persistence;
pub mod phases;
pub mod metrics;
mod phase_log;
