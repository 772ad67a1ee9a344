//! The daemon scheduler: which step of a run comes next. The host performs
//! each step (scan, execute the chunks, sleep) and reports back whether
//! cancellation has been requested at that checkpoint.
use vstd::prelude::*;

verus! {

/// Where a run stands.
#[derive(Clone, Copy, Debug, PartialEq, Eq, Structural)]
pub enum Phase {
    /// Before the first pass.
    Idle,
    /// Enumerating the items of a new pass.
    Scanning,
    /// Running the chunks of the current pass.
    ExecutingChunks,
    /// Waiting `sleep_time` seconds before the next pass.
    Sleeping,
    /// Finished; nothing more runs.
    Done,
}

/// The phase after `phase` once its step has completed, given whether the run
/// repeats and whether cancellation was requested at this checkpoint.
pub open spec fn next_phase(phase: Phase, daemon: bool, cancelled: bool) -> Phase {
    match phase {
        Phase::Idle => if cancelled {
            Phase::Done
        } else {
            Phase::Scanning
        },
        Phase::Scanning => Phase::ExecutingChunks,
        Phase::ExecutingChunks => if daemon && !cancelled {
            Phase::Sleeping
        } else {
            Phase::Done
        },
        Phase::Sleeping => if cancelled {
            Phase::Done
        } else {
            Phase::Scanning
        },
        Phase::Done => Phase::Done,
    }
}

/// Drives successive passes: one pass, or, in daemon mode, passes separated by
/// `sleep_time` seconds until cancellation is requested.
pub struct DaemonScheduler {
    pub phase: Phase,
    pub daemon: bool,
    pub sleep_time: u64,
}

impl DaemonScheduler {
    /// A scheduler that has not started yet.
    pub fn new(daemon: bool, sleep_time: u64) -> (r: DaemonScheduler)
        ensures
            r.phase == Phase::Idle,
            r.daemon == daemon,
            r.sleep_time == sleep_time,
    {
        DaemonScheduler { phase: Phase::Idle, daemon, sleep_time }
    }

    /// Moves to the next phase once the current step has completed; `cancelled`
    /// is the state of the cancellation flag at this checkpoint. Returns the
    /// new phase, whose step the host performs next.
    pub fn advance(&mut self, cancelled: bool) -> (r: Phase)
        ensures
            final(self).phase == next_phase(old(self).phase, old(self).daemon, cancelled),
            final(self).daemon == old(self).daemon,
            final(self).sleep_time == old(self).sleep_time,
            r == final(self).phase,
    {
        let next = match self.phase {
            Phase::Idle => if cancelled {
                Phase::Done
            } else {
                Phase::Scanning
            },
            Phase::Scanning => Phase::ExecutingChunks,
            Phase::ExecutingChunks => if self.daemon && !cancelled {
                Phase::Sleeping
            } else {
                Phase::Done
            },
            Phase::Sleeping => if cancelled {
                Phase::Done
            } else {
                Phase::Scanning
            },
            Phase::Done => Phase::Done,
        };
        self.phase = next;
        next
    }

    /// Whether the run has finished.
    pub fn is_done(&self) -> (r: bool)
        ensures
            r == (self.phase == Phase::Done),
    {
        match self.phase {
            Phase::Done => true,
            _ => false,
        }
    }
}

} // verus!
