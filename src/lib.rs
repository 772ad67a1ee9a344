//! Chunked, bounded-concurrency execution of an action over a set of work items,
//! with cooperative cancellation and a daemon scheduling loop.
pub mod chunks;
pub mod context;
pub mod executor;
pub mod filter;
pub mod outcome;
pub mod pass;
pub mod scheduler;

pub use chunks::split_into_chunks;
pub use context::{ConfigError, ProcessingContext};
pub use executor::{parallelize_chunk, run_task, CancelSignal, DryRun, TaskAction};
pub use filter::should_include;
pub use outcome::{classify_status, tally_outcomes, ActionStatus, ItemOutcome, LaunchFailure, RunSummary};
pub use pass::{log_processing_results, process_file_chunks, process_files};
pub use scheduler::{DaemonScheduler, Phase};
