//! Per-item outcomes, how an action's result is classified, and the counts
//! kept for a chunk and for a whole pass.
use vstd::prelude::*;

verus! {

/// What became of one work item in a pass.
#[derive(Clone, Copy, Debug, PartialEq, Eq, Structural)]
pub enum ItemOutcome {
    /// The action ran and succeeded (or the action is the no-op).
    Processed,
    /// The action ran and reported failure.
    Errored,
    /// Cancellation was observed before the action was started.
    Cancelled,
}

/// What running the action on one item reported.
#[derive(Debug)]
pub enum ActionStatus {
    /// The action ran and exited successfully.
    Succeeded,
    /// The action ran and exited with a failure status.
    Failed,
    /// The action could not be started at all (missing executable,
    /// permission denied); `reason` says why.
    NotLaunched { reason: String },
}

/// A fatal error: the action could not be started for the item at `position`.
#[derive(Debug)]
pub struct LaunchFailure {
    pub position: usize,
    pub reason: String,
}

/// The outcome of an item at `position` whose action reported `status`.
pub open spec fn status_outcome(position: usize, status: ActionStatus) -> Result<ItemOutcome, LaunchFailure> {
    match status {
        ActionStatus::Succeeded => Ok(ItemOutcome::Processed),
        ActionStatus::Failed => Ok(ItemOutcome::Errored),
        ActionStatus::NotLaunched { reason } => Err(LaunchFailure { position, reason }),
    }
}

/// Classifies what the action reported for the item at `position`: success is
/// `Processed`, a failure status is `Errored`, and a failure to start is fatal.
pub fn classify_status(position: usize, status: ActionStatus) -> (r: Result<ItemOutcome, LaunchFailure>)
    ensures
        r == status_outcome(position, status),
{
    match status {
        ActionStatus::Succeeded => Ok(ItemOutcome::Processed),
        ActionStatus::Failed => Ok(ItemOutcome::Errored),
        ActionStatus::NotLaunched { reason } => Err(LaunchFailure { position, reason }),
    }
}

/// How many of `outcomes` equal `which`.
pub open spec fn count_of(outcomes: Seq<ItemOutcome>, which: ItemOutcome) -> nat
    decreases outcomes.len(),
{
    if outcomes.len() == 0 {
        0
    } else {
        count_of(outcomes.drop_last(), which) + if outcomes.last() == which {
            1nat
        } else {
            0nat
        }
    }
}

/// Counting two runs of outcomes one after the other is adding their counts.
pub proof fn lemma_count_of_concat(a: Seq<ItemOutcome>, b: Seq<ItemOutcome>, which: ItemOutcome)
    ensures
        count_of(a + b, which) == count_of(a, which) + count_of(b, which),
    decreases b.len(),
{
    if b.len() > 0 {
        assert((a + b).drop_last() =~= a + b.drop_last());
        lemma_count_of_concat(a, b.drop_last(), which);
    }
}

/// The number of outcomes equal to `which` is its multiplicity in their multiset.
proof fn lemma_count_is_multiplicity(outcomes: Seq<ItemOutcome>, which: ItemOutcome)
    ensures
        count_of(outcomes, which) == outcomes.to_multiset().count(which),
    decreases outcomes.len(),
{
    broadcast use vstd::seq_lib::group_to_multiset_ensures, vstd::multiset::group_multiset_axioms;

    if outcomes.len() == 0 {
        assert(outcomes.to_multiset() =~= vstd::multiset::Multiset::<ItemOutcome>::empty());
    } else {
        let rest = outcomes.drop_last();
        lemma_count_is_multiplicity(rest, which);
        assert(rest.push(outcomes.last()) =~= outcomes);
    }
}

/// The counts do not depend on the order of the outcomes: two sequences
/// holding the same outcomes, in any order, count the same.
pub proof fn lemma_counts_ignore_order(a: Seq<ItemOutcome>, b: Seq<ItemOutcome>)
    requires
        a.to_multiset() == b.to_multiset(),
    ensures
        count_of(a, ItemOutcome::Processed) == count_of(b, ItemOutcome::Processed),
        count_of(a, ItemOutcome::Errored) == count_of(b, ItemOutcome::Errored),
        count_of(a, ItemOutcome::Cancelled) == count_of(b, ItemOutcome::Cancelled),
{
    lemma_count_is_multiplicity(a, ItemOutcome::Processed);
    lemma_count_is_multiplicity(b, ItemOutcome::Processed);
    lemma_count_is_multiplicity(a, ItemOutcome::Errored);
    lemma_count_is_multiplicity(b, ItemOutcome::Errored);
    lemma_count_is_multiplicity(a, ItemOutcome::Cancelled);
    lemma_count_is_multiplicity(b, ItemOutcome::Cancelled);
}

/// Counts the outcomes of a chunk: `(processed, errored, cancelled)`.
pub fn tally_outcomes(outcomes: &[ItemOutcome]) -> (r: (usize, usize, usize))
    ensures
        r.0 == count_of(outcomes@, ItemOutcome::Processed),
        r.1 == count_of(outcomes@, ItemOutcome::Errored),
        r.2 == count_of(outcomes@, ItemOutcome::Cancelled),
        r.0 + r.1 + r.2 == outcomes@.len(),
{
    let mut processed: usize = 0;
    let mut errored: usize = 0;
    let mut cancelled: usize = 0;
    let mut i: usize = 0;
    while i < outcomes.len()
        invariant
            i <= outcomes@.len(),
            processed == count_of(outcomes@.take(i as int), ItemOutcome::Processed),
            errored == count_of(outcomes@.take(i as int), ItemOutcome::Errored),
            cancelled == count_of(outcomes@.take(i as int), ItemOutcome::Cancelled),
            processed + errored + cancelled == i,
        decreases outcomes@.len() - i,
    {
        proof {
            assert(outcomes@.take(i + 1).drop_last() =~= outcomes@.take(i as int));
        }
        match outcomes[i] {
            ItemOutcome::Processed => processed = processed + 1,
            ItemOutcome::Errored => errored = errored + 1,
            ItemOutcome::Cancelled => cancelled = cancelled + 1,
        }
        i = i + 1;
    }
    proof {
        assert(outcomes@.take(i as int) =~= outcomes@);
    }
    (processed, errored, cancelled)
}

/// The counts reported for one full pass.
#[derive(Clone, Copy, Debug, PartialEq, Eq, Structural)]
pub struct RunSummary {
    /// Items in the pass.
    pub total: usize,
    /// Items whose action succeeded.
    pub processed: usize,
    /// Items whose action failed.
    pub errored: usize,
    /// Items skipped because cancellation was requested.
    pub cancelled: usize,
}

impl RunSummary {
    /// Every item of the pass is counted exactly once.
    pub open spec fn is_consistent(&self) -> bool {
        self.total == self.processed + self.errored + self.cancelled
    }

    /// Nothing counted yet.
    pub fn empty() -> (r: RunSummary)
        ensures
            r == (RunSummary { total: 0, processed: 0, errored: 0, cancelled: 0 }),
    {
        RunSummary { total: 0, processed: 0, errored: 0, cancelled: 0 }
    }

    /// Adds the counts `(processed, errored, cancelled)` of a finished chunk.
    pub fn record_chunk(&mut self, counts: (usize, usize, usize))
        requires
            old(self).is_consistent(),
            old(self).total + counts.0 + counts.1 + counts.2 <= usize::MAX,
        ensures
            final(self).processed == old(self).processed + counts.0,
            final(self).errored == old(self).errored + counts.1,
            final(self).cancelled == old(self).cancelled + counts.2,
            final(self).total == old(self).total + counts.0 + counts.1 + counts.2,
    {
        self.processed = self.processed + counts.0;
        self.errored = self.errored + counts.1;
        self.cancelled = self.cancelled + counts.2;
        self.total = self.total + counts.0 + counts.1 + counts.2;
    }

    /// Counts every item of a pass of `n` items that was not reached as
    /// cancelled, once no further chunk is to start.
    pub fn cancel_rest(&mut self, n: usize)
        requires
            old(self).is_consistent(),
            old(self).total <= n,
        ensures
            final(self).processed == old(self).processed,
            final(self).errored == old(self).errored,
            final(self).cancelled == old(self).cancelled + (n - old(self).total),
            final(self).total == n,
    {
        self.cancelled = self.cancelled + (n - self.total);
        self.total = n;
    }
}

} // verus!
