//! A batch of files: how many it may hold, and how it ends.

use crate::error::BatchError;
use vstd::prelude::*;

verus! {

/// The most files one batch may name.
pub const MAX_FILES: usize = 1000;

/// Admits a batch by the number of its files, before any of them is
/// touched.
pub fn check_batch_size(count: usize) -> (verdict: Result<(), BatchError>)
    ensures
        verdict == (if count > MAX_FILES {
            Err::<(), BatchError>(BatchError::TooManyFiles)
        } else {
            Ok(())
        }),
{
    if count > MAX_FILES {
        Err(BatchError::TooManyFiles)
    } else {
        Ok(())
    }
}

/// The number of failures among the outcomes; an outcome says whether the
/// file succeeded.
pub open spec fn failures(outcomes: Seq<bool>) -> nat
    decreases outcomes.len(),
{
    if outcomes.len() == 0 {
        0
    } else {
        failures(outcomes.drop_last()) + if !outcomes.last() {
            1nat
        } else {
            0nat
        }
    }
}

/// Whether every file succeeded.
pub open spec fn all_succeeded(outcomes: Seq<bool>) -> bool {
    forall|i: int| 0 <= i < outcomes.len() ==> #[trigger] outcomes[i]
}

/// There are no more failures than outcomes.
pub proof fn lemma_failures_bounded(outcomes: Seq<bool>)
    ensures
        failures(outcomes) <= outcomes.len(),
    decreases outcomes.len(),
{
    if outcomes.len() > 0 {
        lemma_failures_bounded(outcomes.drop_last());
    }
}

/// No outcome is a failure exactly when the count of failures is zero.
pub proof fn lemma_no_failures(outcomes: Seq<bool>)
    ensures
        failures(outcomes) == 0 <==> all_succeeded(outcomes),
    decreases outcomes.len(),
{
    if outcomes.len() > 0 {
        let front = outcomes.drop_last();
        lemma_no_failures(front);
        if failures(outcomes) == 0 {
            assert forall|i: int| 0 <= i < outcomes.len() implies #[trigger] outcomes[i] by {
                if i < front.len() {
                    assert(front[i]);
                }
            }
        } else {
            if failures(front) != 0 {
                let i = choose|i: int| 0 <= i < front.len() && !(#[trigger] front[i]);
                assert(!outcomes[i]);
            }
        }
    }
}

/// The running account of a batch: for each file processed so far, in
/// order, whether it succeeded. A failure is counted and the batch goes on.
pub struct BatchTally {
    processed: usize,
    failed: usize,
    outcomes: Ghost<Seq<bool>>,
}

impl BatchTally {
    #[verifier::type_invariant]
    spec fn sound(self) -> bool {
        &&& self.processed == self.outcomes@.len()
        &&& self.failed == failures(self.outcomes@)
        &&& self.processed <= MAX_FILES
    }

    /// The outcomes recorded so far, in order: `true` for a success.
    pub closed spec fn outcomes(self) -> Seq<bool> {
        self.outcomes@
    }

    /// An account with nothing recorded.
    pub fn new() -> (tally: BatchTally)
        ensures
            tally.outcomes() == Seq::<bool>::empty(),
    {
        BatchTally { processed: 0, failed: 0, outcomes: Ghost(Seq::empty()) }
    }

    /// Records the outcome of one more file. A batch holds at most
    /// `MAX_FILES` outcomes: one more is not recorded, and the call says so.
    pub fn record(&mut self, succeeded: bool) -> (recorded: bool)
        ensures
            recorded == (old(self).outcomes().len() < MAX_FILES),
            final(self).outcomes() == (if recorded {
                old(self).outcomes().push(succeeded)
            } else {
                old(self).outcomes()
            }),
    {
        proof {
            use_type_invariant(&*self);
            lemma_failures_bounded(self.outcomes@);
        }
        if self.processed >= MAX_FILES {
            return false;
        }
        let ghost longer = self.outcomes@.push(succeeded);
        proof {
            assert(longer.drop_last() =~= self.outcomes@);
        }
        let failed: usize = if !succeeded {
            self.failed + 1
        } else {
            self.failed
        };
        *self = BatchTally { processed: self.processed + 1, failed, outcomes: Ghost(longer) };
        true
    }

    /// How many files have been processed.
    pub fn processed(&self) -> (count: usize)
        ensures
            count == self.outcomes().len(),
    {
        proof {
            use_type_invariant(self);
        }
        self.processed
    }

    /// How many of them failed.
    pub fn failed(&self) -> (count: usize)
        ensures
            count == failures(self.outcomes()),
    {
        proof {
            use_type_invariant(self);
        }
        self.failed
    }

    /// The exit status of the run: zero where every file succeeded, else
    /// one.
    pub fn exit_code(&self) -> (code: i32)
        ensures
            code == 0 <==> all_succeeded(self.outcomes()),
            code == 0 || code == 1,
    {
        proof {
            use_type_invariant(self);
            lemma_no_failures(self.outcomes@);
        }
        if self.failed == 0 {
            0
        } else {
            1
        }
    }
}

} // verus!
