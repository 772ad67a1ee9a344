//! One pass: the items are split into chunks, and the chunks are run one
//! after the other until all are done or cancellation is requested.
use crate::chunks::{
    chunk_at, chunk_count, lemma_ceiling_bounds, lemma_chunk_span, prefix_end, split_into_chunks,
};
use crate::context::ProcessingContext;
use crate::executor::{
    always_reports, counted_outcomes, counts_match, launches_all, lemma_counts_cover,
    lemma_outcome_cases, may_end_as, may_fail_to_launch, never_launches, parallelize_chunk,
    CancelSignal, DryRun, TaskAction,
};
use crate::outcome::{count_of, lemma_count_of_concat, ActionStatus, ItemOutcome, LaunchFailure, RunSummary};
use vstd::prelude::*;

verus! {

/// A run of a pass of `files` in chunks of `k`: the first `stop` chunks ran
/// (all of them when the signal never asks to stop, none when it always does),
/// each of their items ended as `outcomes` says, which it may, and every item
/// of the chunks not started counts as cancelled.
pub open spec fn pass_witness<T, A: TaskAction<T>, C: CancelSignal>(
    action: &A,
    should_cancel: &C,
    files: Seq<T>,
    k: nat,
    counts: (usize, usize, usize),
    stop: nat,
    outcomes: Seq<ItemOutcome>,
) -> bool {
    &&& stop <= chunk_count(files.len(), k)
    &&& should_cancel.fixed_answer() == Some(false) ==> stop == chunk_count(files.len(), k)
    &&& should_cancel.fixed_answer() == Some(true) ==> stop == 0
    &&& outcomes.len() == prefix_end(files.len(), k, stop)
    &&& counted_outcomes(action, should_cancel, files.take(outcomes.len() as int), outcomes)
    &&& counts.0 == count_of(outcomes, ItemOutcome::Processed)
    &&& counts.1 == count_of(outcomes, ItemOutcome::Errored)
    &&& counts.2 == count_of(outcomes, ItemOutcome::Cancelled) + (files.len() - outcomes.len())
}

/// The counts a pass of `files` in chunks of `k` may return: those of some
/// run of the pass, covering every item once.
pub open spec fn pass_counts_possible<T, A: TaskAction<T>, C: CancelSignal>(
    action: &A,
    should_cancel: &C,
    files: Seq<T>,
    k: nat,
    counts: (usize, usize, usize),
) -> bool {
    &&& counts.0 + counts.1 + counts.2 == files.len()
    &&& exists|stop: nat, outcomes: Seq<ItemOutcome>|
        #[trigger] pass_witness(action, should_cancel, files, k, counts, stop, outcomes)
}

/// A fatal error a pass of `files` may end with: that of an item whose action
/// may fail to start.
pub open spec fn pass_error_possible<T, A: TaskAction<T>, C: CancelSignal>(
    action: &A,
    should_cancel: &C,
    files: Seq<T>,
    e: LaunchFailure,
) -> bool {
    e.position < files.len() && may_fail_to_launch(
        action,
        should_cancel,
        files[e.position as int],
        e.reason,
    )
}

/// What a pass of `files` in chunks of `k` may return: counts that some run of
/// the pass gives, or the fatal error of an item whose action may fail to
/// start, and never that error when every action starts.
pub open spec fn pass_result<T, A: TaskAction<T>, C: CancelSignal>(
    action: &A,
    should_cancel: &C,
    files: Seq<T>,
    k: nat,
    r: Result<(usize, usize, usize), LaunchFailure>,
) -> bool {
    &&& r is Ok ==> pass_counts_possible(action, should_cancel, files, k, r->Ok_0)
    &&& r is Err ==> pass_error_possible(action, should_cancel, files, r->Err_0)
    &&& launches_all(action, files) ==> r is Ok
}

/// What a pass returns when the signal and the action leave no choice.
pub proof fn lemma_pass_cases<T, A: TaskAction<T>, C: CancelSignal>(
    action: &A,
    should_cancel: &C,
    files: Seq<T>,
    k: nat,
    r: Result<(usize, usize, usize), LaunchFailure>,
)
    requires
        k > 0,
        pass_result(action, should_cancel, files, k, r),
    ensures
        should_cancel.fixed_answer() == Some(true) ==> r == Ok::<(usize, usize, usize), LaunchFailure>(
            (0, 0, files.len() as usize),
        ),
        should_cancel.fixed_answer() == Some(false) && always_reports(
            action,
            files,
            ActionStatus::Succeeded,
        ) ==> r == Ok::<(usize, usize, usize), LaunchFailure>((files.len() as usize, 0, 0)),
        should_cancel.fixed_answer() == Some(false) && always_reports(
            action,
            files,
            ActionStatus::Failed,
        ) ==> r == Ok::<(usize, usize, usize), LaunchFailure>((0, files.len() as usize, 0)),
        always_reports(action, files, ActionStatus::Succeeded) ==> (r matches Ok(t) && t.1 == 0),
        should_cancel.fixed_answer() == Some(false) && never_launches(action, files) && files.len()
            > 0 ==> r is Err,
{
    let n = files.len();
    lemma_ceiling_bounds(n, k);
    match r {
        Ok(t) => {
            let (stop, outcomes) = choose|stop: nat, outcomes: Seq<ItemOutcome>|
                #[trigger] pass_witness(action, should_cancel, files, k, t, stop, outcomes);
            let items = files.take(outcomes.len() as int);
            assert(0 * k == 0);
            assert(outcomes.len() <= n);
            if always_reports(action, files, ActionStatus::Succeeded) {
                assert forall|i: int, s: ActionStatus|
                    0 <= i < items.len() && #[trigger] action.may_report(items[i], s) implies s
                    == ActionStatus::Succeeded by {
                    assert(items[i] == files[i]);
                }
            }
            if always_reports(action, files, ActionStatus::Failed) {
                assert forall|i: int, s: ActionStatus|
                    0 <= i < items.len() && #[trigger] action.may_report(items[i], s) implies s
                    == ActionStatus::Failed by {
                    assert(items[i] == files[i]);
                }
            }
            if never_launches(action, files) {
                assert forall|i: int, s: ActionStatus|
                    0 <= i < items.len() && #[trigger] action.may_report(
                        items[i],
                        s,
                    ) implies s is NotLaunched by {
                    assert(items[i] == files[i]);
                }
            }
            lemma_outcome_cases(action, should_cancel, items, outcomes);
        },
        Err(e) => {
            assert(action.may_report(
                files[e.position as int],
                ActionStatus::NotLaunched { reason: e.reason },
            ));
        },
    }
}

/// Runs the action over `files` chunk by chunk, in order; a chunk starts only
/// after the previous one has finished. Before each chunk `should_cancel` is
/// read: once it is set no further chunk starts, and every item not yet
/// started counts as cancelled. Returns `(processed, errored, cancelled)` over
/// all of `files`, or the fatal error of the item (its position in `files`)
/// whose action could not be started, which ends the pass at once.
pub fn process_file_chunks<T: Sync, A: TaskAction<T> + Sync, C: CancelSignal + Sync>(
    context: &ProcessingContext,
    files: &[T],
    action: &A,
    should_cancel: &C,
) -> (r: Result<(usize, usize, usize), LaunchFailure>)
    requires
        context.chunk_size > 0,
    ensures
        pass_result(action, should_cancel, files@, context.chunk_size as nat, r),
        should_cancel.fixed_answer() == Some(true) ==> r == Ok::<(usize, usize, usize), LaunchFailure>(
            (0, 0, files@.len() as usize),
        ),
        should_cancel.fixed_answer() == Some(false) && always_reports(
            action,
            files@,
            ActionStatus::Succeeded,
        ) ==> r == Ok::<(usize, usize, usize), LaunchFailure>((files@.len() as usize, 0, 0)),
        should_cancel.fixed_answer() == Some(false) && always_reports(
            action,
            files@,
            ActionStatus::Failed,
        ) ==> r == Ok::<(usize, usize, usize), LaunchFailure>((0, files@.len() as usize, 0)),
        always_reports(action, files@, ActionStatus::Succeeded) ==> (r matches Ok(t) && t.1 == 0),
        should_cancel.fixed_answer() == Some(false) && never_launches(action, files@)
            && files@.len() > 0 ==> r is Err,
{
    let n = files.len();
    let k = context.chunk_size;
    let chunks = split_into_chunks(files, k);
    let ghost count = chunk_count(n as nat, k as nat);
    let mut summary = RunSummary::empty();
    let ghost mut outcomes: Seq<ItemOutcome> = Seq::empty();
    let mut i: usize = 0;
    proof {
        lemma_ceiling_bounds(n as nat, k as nat);
        if count > 0 {
            lemma_chunk_span(files@, k as nat, 0);
        } else {
            assert(0 * k == 0) by (nonlinear_arith);
            assert(n == 0);
        }
        assert(files@.take(0) =~= Seq::<T>::empty());
    }
    while i < chunks.len()
        invariant
            k > 0,
            k == context.chunk_size,
            n == files@.len(),
            chunks@.len() == count,
            count == chunk_count(n as nat, k as nat),
            forall|j: int| 0 <= j < chunks@.len() ==> (#[trigger] chunks@[j])@ == chunk_at(files@, k as nat, j),
            i <= count,
            summary.total == prefix_end(n as nat, k as nat, i as nat),
            i == count ==> summary.total == n,
            summary.total <= n,
            summary.is_consistent(),
            outcomes.len() == summary.total,
            counted_outcomes(action, should_cancel, files@.take(summary.total as int), outcomes),
            summary.processed == count_of(outcomes, ItemOutcome::Processed),
            summary.errored == count_of(outcomes, ItemOutcome::Errored),
            summary.cancelled == count_of(outcomes, ItemOutcome::Cancelled),
            should_cancel.fixed_answer() == Some(true) ==> i == 0,
        decreases count - i,
    {
        proof {
            lemma_chunk_span(files@, k as nat, i as nat);
        }
        if should_cancel.is_cancelled() {
            summary.cancel_rest(n);
            let t = (summary.processed, summary.errored, summary.cancelled);
            let r = Ok(t);
            proof {
                assert(pass_witness(action, should_cancel, files@, k as nat, t, i as nat, outcomes));
                assert(pass_counts_possible(action, should_cancel, files@, k as nat, t));
                assert(pass_result(action, should_cancel, files@, k as nat, r));
                lemma_pass_cases(action, should_cancel, files@, k as nat, r);
            }
            return r;
        }
        let chunk = chunks[i];
        let ghost lo = summary.total as int;
        proof {
            assert forall|m: int| 0 <= m < chunk@.len() implies chunk@[m] == files@[lo + m] by {}
        }
        match parallelize_chunk(chunk, action, should_cancel) {
            Ok(counts) => {
                proof {
                    let co = choose|co: Seq<ItemOutcome>|
                        counted_outcomes(action, should_cancel, chunk@, co) && #[trigger] counts_match(
                            co,
                            counts,
                        );
                    let all = outcomes + co;
                    let items = files@.take(lo + chunk@.len());
                    assert forall|j: int| 0 <= j < items.len() implies #[trigger] may_end_as(
                        action,
                        should_cancel,
                        items[j],
                        all[j],
                    ) by {
                        if j < lo {
                            assert(files@.take(lo)[j] == items[j]);
                            assert(may_end_as(
                                action,
                                should_cancel,
                                files@.take(lo)[j],
                                outcomes[j],
                            ));
                        } else {
                            assert(chunk@[j - lo] == items[j]);
                            assert(may_end_as(action, should_cancel, chunk@[j - lo], co[j - lo]));
                        }
                    }
                    lemma_count_of_concat(outcomes, co, ItemOutcome::Processed);
                    lemma_count_of_concat(outcomes, co, ItemOutcome::Errored);
                    lemma_count_of_concat(outcomes, co, ItemOutcome::Cancelled);
                    outcomes = all;
                }
                summary.record_chunk(counts);
            },
            Err(e) => {
                let r = Err(LaunchFailure { position: summary.total + e.position, reason: e.reason });
                proof {
                    assert(chunk@[e.position as int] == files@[lo + e.position]);
                    if launches_all(action, files@) {
                        assert(!action.may_report(
                            files@[lo + e.position],
                            ActionStatus::NotLaunched { reason: e.reason },
                        ));
                    }
                    lemma_pass_cases(action, should_cancel, files@, k as nat, r);
                }
                return r;
            },
        }
        i = i + 1;
    }
    let t = (summary.processed, summary.errored, summary.cancelled);
    let r = Ok(t);
    proof {
        assert(files@.take(n as int) =~= files@);
        lemma_counts_cover(outcomes);
        assert(pass_witness(action, should_cancel, files@, k as nat, t, count, outcomes));
        assert(pass_counts_possible(action, should_cancel, files@, k as nat, t));
        assert(pass_result(action, should_cancel, files@, k as nat, r));
        lemma_pass_cases(action, should_cancel, files@, k as nat, r);
    }
    r
}

/// The summary reported at the end of a pass over `files`.
pub fn log_processing_results<T>(
    files: &[T],
    processed_files: usize,
    errored_files: usize,
    cancelled_files: usize,
) -> (r: RunSummary)
    ensures
        r.total == files@.len(),
        r.processed == processed_files,
        r.errored == errored_files,
        r.cancelled == cancelled_files,
{
    RunSummary {
        total: files.len(),
        processed: processed_files,
        errored: errored_files,
        cancelled: cancelled_files,
    }
}

/// The counts `(processed, errored, cancelled)` of a pass's summary.
pub open spec fn summary_counts(r: Result<RunSummary, LaunchFailure>) -> Result<(usize, usize, usize), LaunchFailure> {
    match r {
        Ok(s) => Ok((s.processed, s.errored, s.cancelled)),
        Err(e) => Err(e),
    }
}

/// Runs one pass over the items that the enumerator found, and reports its
/// summary: every item is counted once, as processed, errored or cancelled.
/// Fails, with no summary, on an item whose action could not be started.
pub fn process_files<T: Sync, A: TaskAction<T> + Sync, C: CancelSignal + Sync>(
    context: &ProcessingContext,
    files: &[T],
    action: &A,
    should_cancel: &C,
) -> (r: Result<RunSummary, LaunchFailure>)
    requires
        context.chunk_size > 0,
    ensures
        r matches Ok(s) ==> s.total == files@.len() && s.is_consistent(),
        pass_result(action, should_cancel, files@, context.chunk_size as nat, summary_counts(r)),
        should_cancel.fixed_answer() == Some(true) ==> r == Ok::<RunSummary, LaunchFailure>(
            RunSummary {
                total: files@.len() as usize,
                processed: 0,
                errored: 0,
                cancelled: files@.len() as usize,
            },
        ),
        should_cancel.fixed_answer() == Some(false) && always_reports(
            action,
            files@,
            ActionStatus::Succeeded,
        ) ==> r == Ok::<RunSummary, LaunchFailure>(
            RunSummary {
                total: files@.len() as usize,
                processed: files@.len() as usize,
                errored: 0,
                cancelled: 0,
            },
        ),
        should_cancel.fixed_answer() == Some(false) && always_reports(
            action,
            files@,
            ActionStatus::Failed,
        ) ==> r == Ok::<RunSummary, LaunchFailure>(
            RunSummary {
                total: files@.len() as usize,
                processed: 0,
                errored: files@.len() as usize,
                cancelled: 0,
            },
        ),
        always_reports(action, files@, ActionStatus::Succeeded) ==> (r matches Ok(s) && s.errored
            == 0),
        should_cancel.fixed_answer() == Some(false) && never_launches(action, files@)
            && files@.len() > 0 ==> r is Err,
{
    match process_file_chunks(context, files, action, should_cancel) {
        Ok((processed_files, errored_files, cancelled_files)) => Ok(
            log_processing_results(files, processed_files, errored_files, cancelled_files),
        ),
        Err(e) => Err(e),
    }
}

/// Two consecutive passes of the no-op action over an unchanged set of items,
/// with a signal that never asks to stop, both succeed with every item
/// processed and none errored or cancelled, so they report the same counts,
/// however each pass was chunked.
pub proof fn lemma_dry_run_passes_agree<T, C: CancelSignal>(
    files: Seq<T>,
    should_cancel: &C,
    first_chunk_size: nat,
    first: Result<(usize, usize, usize), LaunchFailure>,
    second_chunk_size: nat,
    second: Result<(usize, usize, usize), LaunchFailure>,
)
    requires
        first_chunk_size > 0,
        second_chunk_size > 0,
        should_cancel.fixed_answer() == Some(false),
        pass_result(&DryRun, should_cancel, files, first_chunk_size, first),
        pass_result(&DryRun, should_cancel, files, second_chunk_size, second),
    ensures
        first == second,
        first == Ok::<(usize, usize, usize), LaunchFailure>((files.len() as usize, 0, 0)),
{
    assert forall|i: int, s: ActionStatus|
        0 <= i < files.len() && #[trigger] TaskAction::<T>::may_report(&DryRun, files[i], s) implies s
        == ActionStatus::Succeeded by {}
    lemma_pass_cases(&DryRun, should_cancel, files, first_chunk_size, first);
    lemma_pass_cases(&DryRun, should_cancel, files, second_chunk_size, second);
}

} // verus!
