use pfp::{parallelize_chunk, ActionStatus, DryRun, LaunchFailure, TaskAction};
use std::path::PathBuf;
use std::sync::atomic::{AtomicBool, AtomicUsize, Ordering};
use std::sync::Arc;

fn create_test_files(num_files: usize) -> Vec<PathBuf> {
    (0..num_files)
        .map(|i| PathBuf::from(format!("test_file_{}.txt", i)))
        .collect()
}

struct AlwaysFails;

impl TaskAction<PathBuf> for AlwaysFails {
    fn run(&self, _item: &PathBuf) -> ActionStatus {
        ActionStatus::Failed
    }
}

struct FailsOn(PathBuf);

impl TaskAction<PathBuf> for FailsOn {
    fn run(&self, item: &PathBuf) -> ActionStatus {
        if *item == self.0 {
            ActionStatus::Failed
        } else {
            ActionStatus::Succeeded
        }
    }
}

struct CannotStart;

impl TaskAction<PathBuf> for CannotStart {
    fn run(&self, _item: &PathBuf) -> ActionStatus {
        ActionStatus::NotLaunched {
            reason: String::from("No such file or directory"),
        }
    }
}

struct Counting(AtomicUsize);

impl TaskAction<PathBuf> for Counting {
    fn run(&self, _item: &PathBuf) -> ActionStatus {
        self.0.fetch_add(1, Ordering::SeqCst);
        ActionStatus::Succeeded
    }
}

#[test]
fn test_parallelize_chunk_without_script() {
    let files = create_test_files(5);
    let term_flag = Arc::new(AtomicBool::new(false));

    let (processed, errored, cancelled) = parallelize_chunk(&files, &DryRun, &term_flag).unwrap();

    assert_eq!(processed, 5);
    assert_eq!(errored, 0);
    assert_eq!(cancelled, 0);
}

#[test]
fn test_parallelize_chunk_with_cancellation() {
    let files = create_test_files(5);
    let term_flag = Arc::new(AtomicBool::new(true));

    let (processed, errored, cancelled) = parallelize_chunk(&files, &DryRun, &term_flag).unwrap();

    assert_eq!(processed, 0);
    assert_eq!(errored, 0);
    assert_eq!(cancelled, 5);
}

#[test]
fn cancelled_items_never_start_the_action() {
    let files = create_test_files(6);
    let term_flag = Arc::new(AtomicBool::new(true));
    let action = Counting(AtomicUsize::new(0));

    let counts = parallelize_chunk(&files, &action, &term_flag).unwrap();

    assert_eq!(counts, (0, 0, 6));
    assert_eq!(action.0.load(Ordering::SeqCst), 0);
}

#[test]
fn every_item_runs_the_action_once() {
    let files = create_test_files(9);
    let term_flag = Arc::new(AtomicBool::new(false));
    let action = Counting(AtomicUsize::new(0));

    let counts = parallelize_chunk(&files, &action, &term_flag).unwrap();

    assert_eq!(counts, (9, 0, 0));
    assert_eq!(action.0.load(Ordering::SeqCst), 9);
}

#[test]
fn failing_action_counts_errored_items() {
    let files = create_test_files(4);
    let term_flag = Arc::new(AtomicBool::new(false));

    let counts = parallelize_chunk(&files, &AlwaysFails, &term_flag).unwrap();

    assert_eq!(counts, (0, 4, 0));
}

#[test]
fn one_failure_does_not_stop_the_chunk() {
    let files = create_test_files(5);
    let term_flag = Arc::new(AtomicBool::new(false));

    let counts = parallelize_chunk(&files, &FailsOn(files[2].clone()), &term_flag).unwrap();

    assert_eq!(counts, (4, 1, 0));
}

#[test]
fn action_that_cannot_start_is_fatal() {
    let files = create_test_files(3);
    let term_flag = Arc::new(AtomicBool::new(false));

    let result = parallelize_chunk(&files, &CannotStart, &term_flag);

    match result {
        Err(LaunchFailure { position, reason }) => {
            assert!(position < 3);
            assert_eq!(reason, "No such file or directory");
        }
        Ok(counts) => panic!("expected a fatal error, got {:?}", counts),
    }
}

#[test]
fn empty_chunk_counts_nothing() {
    let files: Vec<PathBuf> = Vec::new();
    let term_flag = Arc::new(AtomicBool::new(false));

    assert_eq!(parallelize_chunk(&files, &DryRun, &term_flag).unwrap(), (0, 0, 0));
}

#[test]
fn fixed_stop_signal_cancels_the_whole_chunk() {
    let files = create_test_files(4);
    let counts = parallelize_chunk(&files, &CannotStart, &true).unwrap();
    assert_eq!(counts, (0, 0, 4));
}

#[test]
fn fixed_go_signal_with_failing_action_errors_the_chunk() {
    let files = create_test_files(4);
    assert_eq!(parallelize_chunk(&files, &AlwaysFails, &false).unwrap(), (0, 4, 0));
}
