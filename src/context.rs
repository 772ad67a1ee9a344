//! The configuration of a run, its cancellation flag, and the one-time setup
//! of the worker pool.
use crate::executor::CancelSignal;
use std::sync::atomic::{AtomicBool, Ordering};
use std::sync::Arc;
use vstd::prelude::*;

verus! {

#[verifier::external_type_specification]
#[verifier::external_body]
pub struct ExThreadPoolBuildError(rayon::ThreadPoolBuildError);

#[verifier::external_type_specification]
#[verifier::external_body]
pub struct ExIoError(std::io::Error);

#[verifier::external_type_specification]
#[verifier::external_body]
pub struct ExSigId(signal_hook::SigId);

/// Signal number of a termination request.
pub const SIGTERM: i32 = 15;

/// Signal number of an interrupt from the terminal.
pub const SIGINT: i32 = 2;

/// A configuration that cannot be used, or a setup step that failed.
#[derive(Debug)]
pub enum ConfigError {
    /// The chunk size is zero.
    ZeroChunkSize,
    /// A worker count was given and it is zero.
    ZeroJobSlots,
    /// The worker pool could not be built.
    ThreadPool(rayon::ThreadPoolBuildError),
    /// The termination flag could not be tied to a signal.
    SignalHandler(std::io::Error),
}

/// Everything a run needs, fixed once the run starts.
pub struct ProcessingContext {
    /// How many items are handed to the worker pool at a time.
    pub chunk_size: usize,
    /// Only files with one of these extensions are items; all files if `None`.
    pub extensions: Option<Vec<String>>,
    /// Whether to keep running passes until cancelled.
    pub daemon: bool,
    /// Seconds to wait between passes in daemon mode.
    pub sleep_time: u64,
    /// How many actions may run at once; the hardware parallelism if `None`.
    pub job_slots: Option<usize>,
    /// Set once a termination request has arrived; never reset.
    pub term: Arc<AtomicBool>,
}

impl ProcessingContext {
    /// A usable configuration: a positive chunk size and, if given, a positive worker count.
    pub open spec fn wf(&self) -> bool {
        &&& self.chunk_size > 0
        &&& self.job_slots != Some(0usize)
    }

    /// Checks the configuration before anything runs.
    pub fn validate(&self) -> (r: Result<(), ConfigError>)
        ensures
            r is Ok <==> self.wf(),
            r matches Err(e) ==> (e is ZeroChunkSize <==> self.chunk_size == 0),
            r matches Err(e) ==> (e is ZeroJobSlots <==> self.chunk_size > 0),
    {
        if self.chunk_size == 0 {
            return Err(ConfigError::ZeroChunkSize);
        }
        match self.job_slots {
            Some(slots) => {
                if slots == 0 {
                    Err(ConfigError::ZeroJobSlots)
                } else {
                    Ok(())
                }
            },
            None => Ok(()),
        }
    }

    /// Ties the termination flag to the termination and interrupt signals: from
    /// then on, the arrival of either sets it.
    pub fn setup_signal_handling(&self) -> (r: Result<(), ConfigError>)
        ensures
            r matches Err(e) ==> e is SignalHandler,
    {
        match register_flag(SIGTERM, &self.term) {
            Ok(_id) => {},
            Err(e) => return Err(ConfigError::SignalHandler(e)),
        }
        match register_flag(SIGINT, &self.term) {
            Ok(_id) => Ok(()),
            Err(e) => Err(ConfigError::SignalHandler(e)),
        }
    }

    /// Whether a termination request has arrived.
    pub fn term_signal_rcvd(&self) -> bool {
        self.term.load(Ordering::Relaxed)
    }

    /// Sets up the process-wide worker pool once, before the first pass: with
    /// `job_slots` threads if given, else with one per logical CPU. A zero
    /// worker count is refused without touching the pool.
    pub fn configure_thread_pool(&self) -> (r: Result<(), ConfigError>)
        ensures
            self.job_slots == Some(0usize) <==> r matches Err(ConfigError::ZeroJobSlots),
            r matches Err(e) ==> !(e is ZeroChunkSize),
    {
        if let Some(slots) = self.job_slots {
            if slots == 0 {
                return Err(ConfigError::ZeroJobSlots);
            }
        }
        let threads = pool_threads(self.job_slots);
        match build_global_thread_pool(threads) {
            Ok(()) => Ok(()),
            Err(e) => Err(ConfigError::ThreadPool(e)),
        }
    }
}

/// The run's termination flag; it may be set at any moment, so no answer is fixed.
impl CancelSignal for ProcessingContext {
    open spec fn fixed_answer(&self) -> Option<bool> {
        None
    }

    fn is_cancelled(&self) -> (r: bool) {
        self.term_signal_rcvd()
    }
}

/// The thread count handed to the worker pool builder: the worker count if
/// given, else 0, which lets the builder choose.
pub fn pool_threads(job_slots: Option<usize>) -> (r: usize)
    ensures
        r == match job_slots {
            Some(n) => n,
            None => 0,
        },
{
    match job_slots {
        Some(n) => n,
        None => 0,
    }
}

/// Relies on signal_hook::flag::register: each later arrival of `signal`
/// stores `true` into `flag`. It panics on the signals that signal-hook
/// forbids (SIGKILL, SIGSTOP, SIGILL, SIGFPE, SIGSEGV), which `requires` leaves
/// out, and may fail with an I/O error when the handler cannot be installed.
#[verifier::external_body]
fn register_flag(signal: i32, flag: &Arc<AtomicBool>) -> Result<signal_hook::SigId, std::io::Error>
    requires
        signal == SIGTERM || signal == SIGINT,
{
    signal_hook::flag::register(signal, Arc::clone(flag))
}

/// Relies on rayon's `ThreadPoolBuilder::new().num_threads(n).build_global()`:
/// initialises the global pool with at most `n` threads, or, for `n == 0`, with
/// as many as rayon picks (the `RAYON_NUM_THREADS` environment variable if set,
/// else the logical CPUs). It fails if the global pool is already initialised
/// or its threads cannot be spawned, so nothing is promised.
#[verifier::external_body]
fn build_global_thread_pool(num_threads: usize) -> Result<(), rayon::ThreadPoolBuildError> {
    rayon::ThreadPoolBuilder::new().num_threads(num_threads).build_global()
}

} // verus!
