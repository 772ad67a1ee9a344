//! Running the action over the items of one chunk on the worker pool, and
//! counting what came of them.
use crate::outcome::{
    classify_status, count_of, tally_outcomes, ActionStatus, ItemOutcome, LaunchFailure,
};
use rayon::iter::{IndexedParallelIterator, IntoParallelRefIterator, ParallelIterator};
use std::sync::atomic::{AtomicBool, Ordering};
use std::sync::Arc;
use vstd::prelude::*;

verus! {

/// The action run on each work item.
pub trait TaskAction<T> {
    /// Whether `status` is a report the action can give when run on `item`;
    /// unless an implementation says more, any report is possible.
    open spec fn may_report(&self, item: T, status: ActionStatus) -> bool {
        true
    }

    /// Runs the action on `item` once, to completion, and reports how it ended.
    fn run(&self, item: &T) -> (r: ActionStatus)
        ensures
            self.may_report(*item, r),
    ;
}

/// The cancellation query: whether a stop has been requested.
pub trait CancelSignal {
    /// `Some(b)` when every query answers `b`; `None` when the answer may
    /// change from one query to the next, which is all that is known unless
    /// an implementation says more.
    open spec fn fixed_answer(&self) -> Option<bool> {
        None
    }

    /// True once cancellation has been requested.
    fn is_cancelled(&self) -> (r: bool)
        ensures
            self.fixed_answer() matches Some(b) ==> r == b,
    ;
}

/// The no-op action: every item counts as processed and nothing is run.
pub struct DryRun;

impl<T> TaskAction<T> for DryRun {
    open spec fn may_report(&self, item: T, status: ActionStatus) -> bool {
        status is Succeeded
    }

    fn run(&self, item: &T) -> (r: ActionStatus) {
        ActionStatus::Succeeded
    }
}

/// A fixed answer: `true` asks every item to stop, `false` never does.
impl CancelSignal for bool {
    open spec fn fixed_answer(&self) -> Option<bool> {
        Some(*self)
    }

    fn is_cancelled(&self) -> (r: bool) {
        *self
    }
}

/// A shared flag, set once a termination request arrives; it may be set at
/// any moment, so no answer is fixed.
impl CancelSignal for Arc<AtomicBool> {
    open spec fn fixed_answer(&self) -> Option<bool> {
        None
    }

    fn is_cancelled(&self) -> (r: bool) {
        self.load(Ordering::Relaxed)
    }
}

/// Whether an item may end as `outcome`: `Cancelled` unless the signal never
/// asks to stop; `Processed` or `Errored` when the signal does not always ask
/// to stop and the action can report success or failure for the item.
pub open spec fn may_end_as<T, A: TaskAction<T>, C: CancelSignal>(
    action: &A,
    should_cancel: &C,
    item: T,
    outcome: ItemOutcome,
) -> bool {
    ||| outcome == ItemOutcome::Cancelled && should_cancel.fixed_answer() != Some(false)
    ||| should_cancel.fixed_answer() != Some(true) && outcome == ItemOutcome::Processed
        && action.may_report(item, ActionStatus::Succeeded)
    ||| should_cancel.fixed_answer() != Some(true) && outcome == ItemOutcome::Errored
        && action.may_report(item, ActionStatus::Failed)
}

/// Whether the action may be started on `item` and fail to start, for `reason`.
pub open spec fn may_fail_to_launch<T, A: TaskAction<T>, C: CancelSignal>(
    action: &A,
    should_cancel: &C,
    item: T,
    reason: String,
) -> bool {
    should_cancel.fixed_answer() != Some(true) && action.may_report(
        item,
        ActionStatus::NotLaunched { reason },
    )
}

/// The results that handling `item` at `position` may have.
pub open spec fn task_result_possible<T, A: TaskAction<T>, C: CancelSignal>(
    action: &A,
    should_cancel: &C,
    position: usize,
    item: T,
    r: Result<ItemOutcome, LaunchFailure>,
) -> bool {
    match r {
        Ok(outcome) => may_end_as(action, should_cancel, item, outcome),
        Err(e) => e.position == position && may_fail_to_launch(
            action,
            should_cancel,
            item,
            e.reason,
        ),
    }
}

/// The action starts on every one of `items`.
pub open spec fn launches_all<T, A: TaskAction<T>>(action: &A, items: Seq<T>) -> bool {
    forall|i: int, reason: String|
        0 <= i < items.len() ==> !#[trigger] action.may_report(
            items[i],
            ActionStatus::NotLaunched { reason },
        )
}

/// Every report the action can give on `items` is `status`.
pub open spec fn always_reports<T, A: TaskAction<T>>(
    action: &A,
    items: Seq<T>,
    status: ActionStatus,
) -> bool {
    forall|i: int, s: ActionStatus| 0 <= i < items.len() && #[trigger] action.may_report(items[i], s) ==> s == status
}

/// The action fails to start on every one of `items`.
pub open spec fn never_launches<T, A: TaskAction<T>>(action: &A, items: Seq<T>) -> bool {
    forall|i: int, s: ActionStatus| 0 <= i < items.len() && #[trigger] action.may_report(items[i], s) ==> s is NotLaunched
}

/// `outcomes` is one outcome per item, each one the item may end as, and
/// `counts` is `(processed, errored, cancelled)` over them.
pub open spec fn counted_outcomes<T, A: TaskAction<T>, C: CancelSignal>(
    action: &A,
    should_cancel: &C,
    items: Seq<T>,
    outcomes: Seq<ItemOutcome>,
) -> bool {
    &&& outcomes.len() == items.len()
    &&& forall|i: int|
        0 <= i < items.len() ==> #[trigger] may_end_as(action, should_cancel, items[i], outcomes[i])
}

/// `counts` is `(processed, errored, cancelled)` of `outcomes`.
pub open spec fn counts_match(outcomes: Seq<ItemOutcome>, counts: (usize, usize, usize)) -> bool {
    &&& counts.0 == count_of(outcomes, ItemOutcome::Processed)
    &&& counts.1 == count_of(outcomes, ItemOutcome::Errored)
    &&& counts.2 == count_of(outcomes, ItemOutcome::Cancelled)
}

/// The counts a chunk may produce: those of some outcome each item may end as.
pub open spec fn chunk_counts_possible<T, A: TaskAction<T>, C: CancelSignal>(
    action: &A,
    should_cancel: &C,
    items: Seq<T>,
    counts: (usize, usize, usize),
) -> bool {
    exists|outcomes: Seq<ItemOutcome>|
        counted_outcomes(action, should_cancel, items, outcomes) && #[trigger] counts_match(
            outcomes,
            counts,
        )
}

/// No outcome equal to `which`, none counted.
proof fn lemma_count_absent(outcomes: Seq<ItemOutcome>, which: ItemOutcome)
    requires
        forall|i: int| 0 <= i < outcomes.len() ==> outcomes[i] != which,
    ensures
        count_of(outcomes, which) == 0,
    decreases outcomes.len(),
{
    if outcomes.len() > 0 {
        lemma_count_absent(outcomes.drop_last(), which);
    }
}

/// Every outcome is counted exactly once.
pub proof fn lemma_counts_cover(outcomes: Seq<ItemOutcome>)
    ensures
        count_of(outcomes, ItemOutcome::Processed) + count_of(outcomes, ItemOutcome::Errored)
            + count_of(outcomes, ItemOutcome::Cancelled) == outcomes.len(),
    decreases outcomes.len(),
{
    if outcomes.len() > 0 {
        lemma_counts_cover(outcomes.drop_last());
    }
}

/// What the counts are when the signal and the action leave no choice.
pub proof fn lemma_outcome_cases<T, A: TaskAction<T>, C: CancelSignal>(
    action: &A,
    should_cancel: &C,
    items: Seq<T>,
    outcomes: Seq<ItemOutcome>,
)
    requires
        counted_outcomes(action, should_cancel, items, outcomes),
    ensures
        should_cancel.fixed_answer() == Some(true) ==> count_of(outcomes, ItemOutcome::Cancelled)
            == items.len() && count_of(outcomes, ItemOutcome::Processed) == 0 && count_of(
            outcomes,
            ItemOutcome::Errored,
        ) == 0,
        should_cancel.fixed_answer() == Some(false) && always_reports(
            action,
            items,
            ActionStatus::Succeeded,
        ) ==> count_of(outcomes, ItemOutcome::Processed) == items.len() && count_of(
            outcomes,
            ItemOutcome::Errored,
        ) == 0 && count_of(outcomes, ItemOutcome::Cancelled) == 0,
        should_cancel.fixed_answer() == Some(false) && always_reports(
            action,
            items,
            ActionStatus::Failed,
        ) ==> count_of(outcomes, ItemOutcome::Errored) == items.len() && count_of(
            outcomes,
            ItemOutcome::Processed,
        ) == 0 && count_of(outcomes, ItemOutcome::Cancelled) == 0,
        always_reports(action, items, ActionStatus::Succeeded) ==> count_of(
            outcomes,
            ItemOutcome::Errored,
        ) == 0,
        should_cancel.fixed_answer() == Some(false) && never_launches(action, items) ==> items.len()
            == 0,
{
    lemma_counts_cover(outcomes);
    let fixed = should_cancel.fixed_answer();
    assert forall|i: int| 0 <= i < items.len() implies (fixed == Some(true) ==> outcomes[i]
        == ItemOutcome::Cancelled) && (fixed == Some(false) ==> outcomes[i]
        != ItemOutcome::Cancelled) && (always_reports(action, items, ActionStatus::Succeeded)
        ==> outcomes[i] != ItemOutcome::Errored) && (always_reports(
        action,
        items,
        ActionStatus::Failed,
    ) ==> outcomes[i] != ItemOutcome::Processed) by {
        assert(may_end_as(action, should_cancel, items[i], outcomes[i]));
        if outcomes[i] == ItemOutcome::Errored {
            assert(action.may_report(items[i], ActionStatus::Failed));
        }
        if outcomes[i] == ItemOutcome::Processed {
            assert(action.may_report(items[i], ActionStatus::Succeeded));
        }
    }
    if fixed == Some(true) {
        lemma_count_absent(outcomes, ItemOutcome::Processed);
        lemma_count_absent(outcomes, ItemOutcome::Errored);
    }
    if always_reports(action, items, ActionStatus::Succeeded) {
        lemma_count_absent(outcomes, ItemOutcome::Errored);
    }
    if always_reports(action, items, ActionStatus::Failed) {
        lemma_count_absent(outcomes, ItemOutcome::Processed);
    }
    if fixed == Some(false) {
        lemma_count_absent(outcomes, ItemOutcome::Cancelled);
        if never_launches(action, items) && items.len() > 0 {
            assert(may_end_as(action, should_cancel, items[0], outcomes[0]));
            if outcomes[0] == ItemOutcome::Processed {
                assert(action.may_report(items[0], ActionStatus::Succeeded));
            } else {
                assert(action.may_report(items[0], ActionStatus::Failed));
            }
        }
    }
}

/// Handles the item at `position` of a chunk: if cancellation has been
/// requested the action is not started and the item is `Cancelled`; otherwise
/// the action runs and its status is classified.
pub fn run_task<T, A: TaskAction<T>, C: CancelSignal>(
    position: usize,
    item: &T,
    action: &A,
    should_cancel: &C,
) -> (r: Result<ItemOutcome, LaunchFailure>)
    ensures
        task_result_possible(action, should_cancel, position, *item, r),
{
    if should_cancel.is_cancelled() {
        Ok(ItemOutcome::Cancelled)
    } else {
        let status = action.run(item);
        classify_status(position, status)
    }
}

/// Relies on rayon's parallel iterator over a slice: `enumerate` pairs each
/// item with its index, `map` calls `run_task` on each pair on the current
/// thread pool, and collecting into `Result<Vec<_>, _>` gives `Err` holding
/// the error of one call that failed, if any did, and otherwise `Ok` with the
/// result of every call, in item order.
#[verifier::external_body]
fn run_chunk_in_parallel<T: Sync, A: TaskAction<T> + Sync, C: CancelSignal + Sync>(
    chunk: &[T],
    action: &A,
    should_cancel: &C,
) -> (r: Result<Vec<ItemOutcome>, LaunchFailure>)
    ensures
        r matches Ok(v) ==> v@.len() == chunk@.len() && forall|i: int|
            0 <= i < chunk@.len() ==> #[trigger] may_end_as(
                action,
                should_cancel,
                chunk@[i],
                v@[i],
            ),
        r matches Err(e) ==> e.position < chunk@.len() && task_result_possible(
            action,
            should_cancel,
            e.position,
            chunk@[e.position as int],
            Err::<ItemOutcome, LaunchFailure>(e),
        ),
{
    chunk.par_iter().enumerate().map(|(i, item)| run_task(i, item, action, should_cancel)).collect()
}

/// Runs the action on every item of `chunk` on the worker pool. Each item
/// checks `should_cancel` right before it starts and is counted as cancelled
/// if it is set. Returns `(processed, errored, cancelled)`, or the fatal error
/// of an item (its position in `chunk`) whose action could not be started.
pub fn parallelize_chunk<T: Sync, A: TaskAction<T> + Sync, C: CancelSignal + Sync>(
    chunk: &[T],
    action: &A,
    should_cancel: &C,
) -> (r: Result<(usize, usize, usize), LaunchFailure>)
    ensures
        r matches Ok(t) ==> chunk_counts_possible(action, should_cancel, chunk@, t),
        r matches Ok(t) ==> t.0 + t.1 + t.2 == chunk@.len(),
        r matches Err(e) ==> e.position < chunk@.len() && may_fail_to_launch(
            action,
            should_cancel,
            chunk@[e.position as int],
            e.reason,
        ),
        launches_all(action, chunk@) ==> r is Ok,
        should_cancel.fixed_answer() == Some(true) ==> r == Ok::<
            (usize, usize, usize),
            LaunchFailure,
        >((0, 0, chunk@.len() as usize)),
        should_cancel.fixed_answer() == Some(false) && always_reports(
            action,
            chunk@,
            ActionStatus::Succeeded,
        ) ==> r == Ok::<(usize, usize, usize), LaunchFailure>((chunk@.len() as usize, 0, 0)),
        should_cancel.fixed_answer() == Some(false) && always_reports(
            action,
            chunk@,
            ActionStatus::Failed,
        ) ==> r == Ok::<(usize, usize, usize), LaunchFailure>((0, chunk@.len() as usize, 0)),
        always_reports(action, chunk@, ActionStatus::Succeeded) ==> (r matches Ok(t) && t.1 == 0),
        should_cancel.fixed_answer() == Some(false) && never_launches(action, chunk@)
            && chunk@.len() > 0 ==> r is Err,
{
    match run_chunk_in_parallel(chunk, action, should_cancel) {
        Ok(outcomes) => {
            let t = tally_outcomes(outcomes.as_slice());
            proof {
                assert(counted_outcomes(action, should_cancel, chunk@, outcomes@));
                assert(counts_match(outcomes@, t));
                lemma_outcome_cases(action, should_cancel, chunk@, outcomes@);
            }
            Ok(t)
        },
        Err(e) => {
            proof {
                if should_cancel.fixed_answer() == Some(false) && always_reports(
                    action,
                    chunk@,
                    ActionStatus::Succeeded,
                ) {
                    assert(action.may_report(
                        chunk@[e.position as int],
                        ActionStatus::NotLaunched { reason: e.reason },
                    ));
                }
                if always_reports(action, chunk@, ActionStatus::Succeeded) || always_reports(
                    action,
                    chunk@,
                    ActionStatus::Failed,
                ) {
                    assert(action.may_report(
                        chunk@[e.position as int],
                        ActionStatus::NotLaunched { reason: e.reason },
                    ));
                }
            }
            Err(e)
        },
    }
}

} // verus!
