//! The decisions of a bulk operation that performs items one by one and,
//! when one fails, asks the user whether to skip it, skip every later
//! failure, retry it or cancel the rest.
//!
//! The caller performs the items and asks the questions; `BulkRun` is told
//! what happened and says what to do next.
use vstd::prelude::*;

verus! {

/// The user's answer to a failed item.
#[derive(Clone, Copy, Debug, PartialEq, Eq, Structural)]
pub enum BulkDecision {
    /// Record the failure and go on with the next item.
    Skip,
    /// Record this and every later failure without asking again.
    SkipAll,
    /// Perform the same item again.
    Retry,
    /// Stop without performing the remaining items.
    Cancel,
}

/// Where a bulk run stands.
#[derive(Clone, Debug, PartialEq, Eq)]
pub enum BulkPhase {
    /// Between items: the next one is about to start.
    Ready,
    /// An item is being performed.
    Performing,
    /// An item failed with this message and the user is being asked.
    Asking(String),
    /// The run is over.
    Done,
}

/// What the caller does next.
#[derive(Debug, PartialEq, Eq)]
pub enum BulkAction {
    /// Report progress (`completed` items done, the label of item `index`
    /// current) and perform item `index`.
    Perform { index: usize, completed: usize },
    /// Ask the user about item `index`, which failed with this message.
    Ask { index: usize, message: String },
    /// Start the next item.
    Continue,
    /// The run is over: report its errors and whether it was cancelled.
    Finish,
}

/// The state of a bulk run over labelled items.
pub struct BulkRun {
    /// The label of each item, in order.
    pub labels: Vec<String>,
    /// How many items are done (performed, or failed and recorded).
    pub processed: usize,
    /// Whether failures are recorded without asking.
    pub skip_all: bool,
    /// Whether the run was cancelled.
    pub cancelled: bool,
    /// The label and message of each recorded failure, in order.
    pub errors: Vec<(String, String)>,
    pub phase: BulkPhase,
}

pub open spec fn errors_view(e: Seq<(String, String)>) -> Seq<(Seq<char>, Seq<char>)> {
    e.map_values(|p: (String, String)| (p.0@, p.1@))
}

impl BulkRun {
    /// The run is consistent: no more items done than there are, no more
    /// failures recorded than items done, and a finished run either was
    /// cancelled or stopped early only when told to stop (see `abandon`).
    pub open spec fn wf(&self) -> bool {
        &&& self.processed <= self.labels@.len()
        &&& self.errors@.len() <= self.processed
        &&& (self.phase is Performing || self.phase is Asking) ==> self.processed < self.labels@.len()
    }

    /// A run over the given items, none started yet; no run at all when
    /// there are no items (nothing is performed and nothing is reported).
    pub fn new(labels: Vec<String>) -> (r: Option<BulkRun>)
        ensures
            labels@.len() == 0 <==> r is None,
            r matches Some(run) ==> {
                &&& run.wf()
                &&& run.labels@ == labels@
                &&& run.processed == 0
                &&& !run.skip_all
                &&& !run.cancelled
                &&& run.errors@.len() == 0
                &&& run.phase == BulkPhase::Ready
            },
    {
        if labels.len() == 0 {
            return None;
        }
        Some(
            BulkRun {
                labels,
                processed: 0,
                skip_all: false,
                cancelled: false,
                errors: Vec::new(),
                phase: BulkPhase::Ready,
            },
        )
    }

    /// Starts the next item, unless every item is done or a cancel was
    /// requested (which cancels the run).
    pub fn next_step(&mut self, cancel_requested: bool) -> (a: BulkAction)
        requires
            old(self).wf(),
            old(self).phase == BulkPhase::Ready,
        ensures
            final(self).wf(),
            final(self).labels@ == old(self).labels@,
            final(self).processed == old(self).processed,
            final(self).skip_all == old(self).skip_all,
            final(self).errors@ == old(self).errors@,
            old(self).processed == old(self).labels@.len() ==> a == BulkAction::Finish
                && final(self).phase == BulkPhase::Done && final(self).cancelled == old(self).cancelled,
            old(self).processed < old(self).labels@.len() && cancel_requested ==> a
                == BulkAction::Finish && final(self).phase == BulkPhase::Done && final(self).cancelled,
            old(self).processed < old(self).labels@.len() && !cancel_requested ==> a
                == (BulkAction::Perform {
                index: old(self).processed,
                completed: old(self).processed,
            }) && final(self).phase == BulkPhase::Performing && final(self).cancelled
                == old(self).cancelled,
    {
        if self.processed >= self.labels.len() {
            self.phase = BulkPhase::Done;
            BulkAction::Finish
        } else if cancel_requested {
            self.cancelled = true;
            self.phase = BulkPhase::Done;
            BulkAction::Finish
        } else {
            self.phase = BulkPhase::Performing;
            BulkAction::Perform { index: self.processed, completed: self.processed }
        }
    }

    /// Ends the run at once, neither cancelled nor complete: the progress
    /// report could not be delivered, so nobody is waiting for the rest.
    pub fn abandon(&mut self)
        requires
            old(self).wf(),
        ensures
            final(self).wf(),
            final(self).phase == BulkPhase::Done,
            final(self).labels@ == old(self).labels@,
            final(self).processed == old(self).processed,
            final(self).cancelled == old(self).cancelled,
            final(self).skip_all == old(self).skip_all,
            final(self).errors@ == old(self).errors@,
    {
        self.phase = BulkPhase::Done;
    }

    fn record_failure(&mut self, message: String)
        requires
            old(self).wf(),
            old(self).processed < old(self).labels@.len(),
        ensures
            final(self).labels@ == old(self).labels@,
            final(self).processed == old(self).processed + 1,
            final(self).skip_all == old(self).skip_all,
            final(self).cancelled == old(self).cancelled,
            errors_view(final(self).errors@) == errors_view(old(self).errors@).push(
                (old(self).labels@[old(self).processed as int]@, message@),
            ),
            final(self).phase == BulkPhase::Ready,
            final(self).wf(),
    {
        let _n = self.labels.len();
        let label = self.labels[self.processed].clone();
        let ghost before = self.errors@;
        self.errors.push((label, message));
        assert(errors_view(self.errors@) =~= errors_view(before).push(
            (self.labels@[self.processed as int]@, message@),
        ));
        self.processed = self.processed + 1;
        self.phase = BulkPhase::Ready;
    }

    /// Takes the outcome of performing the current item: success moves on;
    /// a failure is recorded and skipped once skipping all was chosen,
    /// otherwise the user is asked.
    pub fn performed(&mut self, outcome: Result<(), String>) -> (a: BulkAction)
        requires
            old(self).wf(),
            old(self).phase == BulkPhase::Performing,
        ensures
            final(self).wf(),
            final(self).labels@ == old(self).labels@,
            final(self).skip_all == old(self).skip_all,
            final(self).cancelled == old(self).cancelled,
            ({
                match outcome {
                    Ok(()) => a == BulkAction::Continue && final(self).processed == old(self).processed
                        + 1 && final(self).errors@ == old(self).errors@ && final(self).phase
                        == BulkPhase::Ready,
                    Err(m) => if old(self).skip_all {
                        a == BulkAction::Continue && final(self).processed == old(self).processed + 1
                            && errors_view(final(self).errors@) == errors_view(old(self).errors@).push(
                            (old(self).labels@[old(self).processed as int]@, m@),
                        ) && final(self).phase == BulkPhase::Ready
                    } else {
                        &&& a matches BulkAction::Ask { index, message }
                        &&& a->Ask_index == old(self).processed
                        &&& a->Ask_message@ == m@
                        &&& final(self).processed == old(self).processed
                        &&& final(self).errors@ == old(self).errors@
                        &&& final(self).phase matches BulkPhase::Asking(pm)
                        &&& final(self).phase->Asking_0@ == m@
                    },
                }
            }),
    {
        match outcome {
            Ok(()) => {
                let _n = self.labels.len();
                self.processed = self.processed + 1;
                self.phase = BulkPhase::Ready;
                BulkAction::Continue
            },
            Err(message) => {
                if self.skip_all {
                    self.record_failure(message);
                    BulkAction::Continue
                } else {
                    self.phase = BulkPhase::Asking(message.clone());
                    BulkAction::Ask { index: self.processed, message }
                }
            },
        }
    }

    /// Takes the user's answer about the failed item; no answer (the
    /// question could not be asked or was dropped) cancels.
    pub fn decided(&mut self, decision: Option<BulkDecision>) -> (a: BulkAction)
        requires
            old(self).wf(),
            old(self).phase is Asking,
        ensures
            final(self).wf(),
            final(self).labels@ == old(self).labels@,
            ({
                let m = old(self).phase->Asking_0@;
                let failed = (old(self).labels@[old(self).processed as int]@, m);
                match decision {
                    Some(BulkDecision::Retry) => a == (BulkAction::Perform {
                        index: old(self).processed,
                        completed: old(self).processed,
                    }) && final(self).phase == BulkPhase::Performing && final(self).processed == old(self).processed && final(self).errors@ == old(self).errors@ && final(self).skip_all
                        == old(self).skip_all && final(self).cancelled == old(self).cancelled,
                    Some(BulkDecision::Skip) => a == BulkAction::Continue && final(self).phase
                        == BulkPhase::Ready && final(self).processed == old(self).processed + 1
                        && errors_view(final(self).errors@) == errors_view(old(self).errors@).push(
                        failed,
                    ) && final(self).skip_all == old(self).skip_all && final(self).cancelled == old(self).cancelled,
                    Some(BulkDecision::SkipAll) => a == BulkAction::Continue && final(self).phase
                        == BulkPhase::Ready && final(self).processed == old(self).processed + 1
                        && errors_view(final(self).errors@) == errors_view(old(self).errors@).push(
                        failed,
                    ) && final(self).skip_all && final(self).cancelled == old(self).cancelled,
                    _ => a == BulkAction::Finish && final(self).phase == BulkPhase::Done
                        && final(self).cancelled && final(self).processed == old(self).processed
                        && final(self).errors@ == old(self).errors@ && final(self).skip_all == old(self).skip_all,
                }
            }),
    {
        let message = match &self.phase {
            BulkPhase::Asking(m) => m.clone(),
            _ => String::new(),
        };
        match decision {
            Some(BulkDecision::Retry) => {
                self.phase = BulkPhase::Performing;
                BulkAction::Perform { index: self.processed, completed: self.processed }
            },
            Some(BulkDecision::Skip) => {
                self.record_failure(message);
                BulkAction::Continue
            },
            Some(BulkDecision::SkipAll) => {
                self.skip_all = true;
                self.record_failure(message);
                BulkAction::Continue
            },
            _ => {
                self.cancelled = true;
                self.phase = BulkPhase::Done;
                BulkAction::Finish
            },
        }
    }
}

} // verus!
