use pfp::{
    process_file_chunks, process_files, ActionStatus, DaemonScheduler, DryRun, Phase,
    ProcessingContext, RunSummary, TaskAction,
};
use std::sync::atomic::{AtomicBool, AtomicUsize, Ordering};
use std::sync::Arc;

fn context(chunk_size: usize, daemon: bool, cancelled: bool) -> ProcessingContext {
    ProcessingContext {
        chunk_size,
        extensions: None,
        daemon,
        sleep_time: 0,
        job_slots: None,
        term: Arc::new(AtomicBool::new(cancelled)),
    }
}

fn items(n: usize) -> Vec<String> {
    (0..n).map(|i| format!("item_{}", i)).collect()
}

struct AlwaysFails;

impl TaskAction<String> for AlwaysFails {
    fn run(&self, _item: &String) -> ActionStatus {
        ActionStatus::Failed
    }
}

struct MissingExecutable;

impl TaskAction<String> for MissingExecutable {
    fn run(&self, _item: &String) -> ActionStatus {
        ActionStatus::NotLaunched {
            reason: String::from("No such file or directory (os error 2)"),
        }
    }
}

struct FailsOnLast;

impl TaskAction<String> for FailsOnLast {
    fn run(&self, item: &String) -> ActionStatus {
        if item == "item_6" {
            ActionStatus::NotLaunched {
                reason: String::from("permission denied"),
            }
        } else {
            ActionStatus::Succeeded
        }
    }
}

/// Sets the cancellation flag while running the item named `trigger`.
struct CancelsAt {
    trigger: String,
    term: Arc<AtomicBool>,
}

impl TaskAction<String> for CancelsAt {
    fn run(&self, item: &String) -> ActionStatus {
        if *item == self.trigger {
            self.term.store(true, Ordering::SeqCst);
        }
        ActionStatus::Succeeded
    }
}

/// Records the largest number of actions running at once.
struct InFlight {
    now: AtomicUsize,
    most: AtomicUsize,
}

impl TaskAction<String> for InFlight {
    fn run(&self, _item: &String) -> ActionStatus {
        let running = self.now.fetch_add(1, Ordering::SeqCst) + 1;
        self.most.fetch_max(running, Ordering::SeqCst);
        let mut spin: u64 = 0;
        for i in 0..200_000u64 {
            spin = spin.wrapping_add(std::hint::black_box(i));
        }
        std::hint::black_box(spin);
        self.now.fetch_sub(1, Ordering::SeqCst);
        ActionStatus::Succeeded
    }
}

#[test]
fn cancelled_before_the_pass_counts_every_item_cancelled() {
    let ctx = context(3, false, true);
    let summary = process_files(&ctx, &items(10), &DryRun, &ctx).unwrap();
    assert_eq!(
        summary,
        RunSummary {
            total: 10,
            processed: 0,
            errored: 0,
            cancelled: 10,
        }
    );
}

#[test]
fn no_op_action_processes_every_item() {
    let ctx = context(3, false, false);
    let summary = process_files(&ctx, &items(7), &DryRun, &ctx).unwrap();
    assert_eq!(
        summary,
        RunSummary {
            total: 7,
            processed: 7,
            errored: 0,
            cancelled: 0,
        }
    );
}

#[test]
fn failing_action_errors_every_item() {
    let ctx = context(3, false, false);
    let summary = process_files(&ctx, &items(4), &AlwaysFails, &ctx).unwrap();
    assert_eq!(
        summary,
        RunSummary {
            total: 4,
            processed: 0,
            errored: 4,
            cancelled: 0,
        }
    );
}

#[test]
fn missing_executable_aborts_the_pass() {
    let ctx = context(2, false, false);
    let result = process_files(&ctx, &items(5), &MissingExecutable, &ctx);
    match result {
        Err(e) => {
            assert!(e.position < 2, "the first chunk fails, got position {}", e.position);
            assert_eq!(e.reason, "No such file or directory (os error 2)");
        }
        Ok(summary) => panic!("expected a fatal error, got {:?}", summary),
    }
}

#[test]
fn fatal_error_reports_its_position_in_the_pass() {
    let ctx = context(3, false, false);
    let result = process_file_chunks(&ctx, &items(7), &FailsOnLast, &ctx);
    assert_eq!(result.map_err(|e| e.position).unwrap_err(), 6);
}

#[test]
fn cancellation_during_a_chunk_stops_later_chunks() {
    let term = Arc::new(AtomicBool::new(false));
    let mut ctx = context(4, false, false);
    ctx.term = term.clone();
    let action = CancelsAt {
        trigger: String::from("item_3"),
        term,
    };
    let (processed, errored, cancelled) = process_file_chunks(&ctx, &items(10), &action, &ctx).unwrap();
    assert_eq!(processed + errored + cancelled, 10);
    assert_eq!(errored, 0);
    assert!(processed >= 1 && processed <= 4, "processed {}", processed);
    assert!(cancelled >= 6, "cancelled {}", cancelled);
}

#[test]
fn fixed_stop_signal_cancels_every_item_without_running() {
    let ctx = context(3, false, false);
    let summary = process_files(&ctx, &items(10), &MissingExecutable, &true).unwrap();
    assert_eq!(
        summary,
        RunSummary {
            total: 10,
            processed: 0,
            errored: 0,
            cancelled: 10,
        }
    );
}

#[test]
fn fixed_go_signal_with_no_op_processes_every_item() {
    let ctx = context(5, false, false);
    let counts = process_file_chunks(&ctx, &items(12), &DryRun, &false).unwrap();
    assert_eq!(counts, (12, 0, 0));
}

#[test]
fn fixed_go_signal_with_failing_action_errors_every_item() {
    let ctx = context(3, false, false);
    let counts = process_file_chunks(&ctx, &items(4), &AlwaysFails, &false).unwrap();
    assert_eq!(counts, (0, 4, 0));
}

#[test]
fn empty_pass_reports_zero() {
    let ctx = context(5, false, false);
    let summary = process_files(&ctx, &items(0), &DryRun, &ctx).unwrap();
    assert_eq!(
        summary,
        RunSummary {
            total: 0,
            processed: 0,
            errored: 0,
            cancelled: 0,
        }
    );
}

#[test]
fn concurrency_never_exceeds_worker_count() {
    for workers in 1..=3usize {
        let pool = rayon::ThreadPoolBuilder::new()
            .num_threads(workers)
            .build()
            .unwrap();
        for chunk_size in [1usize, 2, 3, 5, 8, 50] {
            let ctx = context(chunk_size, false, false);
            let action = InFlight {
                now: AtomicUsize::new(0),
                most: AtomicUsize::new(0),
            };
            let summary = pool.install(|| process_files(&ctx, &items(24), &action, &ctx)).unwrap();
            assert_eq!(summary.processed, 24);
            let most = action.most.load(Ordering::SeqCst);
            assert!(most >= 1 && most <= workers, "{} running with {} workers", most, workers);
        }
    }
}

#[test]
fn daemon_passes_over_unchanged_items_agree() {
    let ctx = context(3, true, false);
    let files = items(8);
    let mut scheduler = DaemonScheduler::new(ctx.daemon, ctx.sleep_time);
    let mut summaries = Vec::new();
    while summaries.len() < 2 {
        match scheduler.advance(ctx.term_signal_rcvd()) {
            Phase::ExecutingChunks => summaries.push(process_files(&ctx, &files, &DryRun, &ctx).unwrap()),
            Phase::Done => break,
            _ => {}
        }
    }
    assert_eq!(summaries.len(), 2);
    assert_eq!(summaries[0], summaries[1]);
    assert_eq!(
        summaries[0],
        RunSummary {
            total: 8,
            processed: 8,
            errored: 0,
            cancelled: 0,
        }
    );
}
