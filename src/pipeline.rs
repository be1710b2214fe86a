//! The submission pipeline: which batches are submitted, in which order,
//! and the state machine that drives each through submission and
//! confirmation.
//!
//! The machine decides; the caller performs each step against the backend
//! and reports back what happened. Batches commit independently: a rejected
//! or unconfirmed batch is recorded and the next one is attempted.

use vstd::prelude::*;

use crate::commitment::BatchKind;
use crate::error::ErrorKind;
use crate::events::SecurityDefinition;
use crate::transfer::{Transfer, TransferView};
use crate::transfer_map::{batch_views, views_of, BatchView, SecurityBatch};

verus! {

/// A non-empty list of transfers or of fees of one security, to be
/// committed, signed and submitted as one batch.
#[derive(Debug, Clone, PartialEq, Eq)]
pub struct PlannedBatch {
    pub security: SecurityDefinition,
    pub kind: BatchKind,
    pub transfers: Vec<Transfer>,
}

pub struct PlannedView {
    pub security: SecurityDefinition,
    pub kind: BatchKind,
    pub transfers: Seq<TransferView>,
}

impl View for PlannedBatch {
    type V = PlannedView;

    open spec fn view(&self) -> PlannedView {
        PlannedView { security: self.security, kind: self.kind, transfers: views_of(self.transfers@) }
    }
}

pub open spec fn planned_views(ps: Seq<PlannedBatch>) -> Seq<PlannedView> {
    ps.map_values(|p: PlannedBatch| p@)
}

/// The batches of one security: its transfers, then its fees, each only
/// where it is not empty.
pub open spec fn security_plan(b: BatchView) -> Seq<PlannedView> {
    (if b.transfers.len() > 0 {
        seq![PlannedView { security: b.security, kind: BatchKind::Transfer, transfers: b.transfers }]
    } else {
        seq![]
    }) + (if b.fees.len() > 0 {
        seq![PlannedView { security: b.security, kind: BatchKind::Fee, transfers: b.fees }]
    } else {
        seq![]
    })
}

/// The batches to submit, security by security in the aggregator's order.
pub open spec fn plan_of(bs: Seq<BatchView>) -> Seq<PlannedView>
    decreases bs.len(),
{
    if bs.len() == 0 {
        seq![]
    } else {
        plan_of(bs.drop_last()) + security_plan(bs.last())
    }
}

/// Orders the aggregated batches for submission, leaving out every empty
/// list, so that no empty batch is ever committed, signed or submitted.
pub fn plan_batches(batches: Vec<SecurityBatch>) -> (r: Vec<PlannedBatch>)
    ensures
        planned_views(r@) == plan_of(batch_views(batches@)),
        forall|i: int| 0 <= i < r@.len() ==> (#[trigger] r@[i]).transfers@.len() > 0,
{
    let ghost all = batches@;
    let mut rest = batches;
    let mut out: Vec<PlannedBatch> = Vec::new();
    let ghost mut k: int = 0;
    while rest.len() > 0
        invariant
            0 <= k <= all.len(),
            rest@ == all.subrange(k, all.len() as int),
            planned_views(out@) == plan_of(batch_views(all.subrange(0, k))),
            forall|i: int| 0 <= i < out@.len() ==> (#[trigger] out@[i]).transfers@.len() > 0,
        decreases rest@.len(),
    {
        let b = rest.remove(0);
        let ghost before = out@;
        let SecurityBatch { security, transfers, fees } = b;
        if transfers.len() > 0 {
            out.push(PlannedBatch { security, kind: BatchKind::Transfer, transfers });
        }
        if fees.len() > 0 {
            out.push(PlannedBatch { security, kind: BatchKind::Fee, transfers: fees });
        }
        proof {
            assert(all[k] == b);
            let p = batch_views(all.subrange(0, k + 1));
            assert(p.drop_last() =~= batch_views(all.subrange(0, k)));
            assert(p.last() == b@);
            assert(planned_views(out@) =~= planned_views(before) + security_plan(b@));
            k = k + 1;
            assert(rest@ =~= all.subrange(k, all.len() as int));
        }
    }
    assert(all.subrange(0, k) =~= all);
    out
}

/// Where the pipeline stands.
#[derive(Debug, Clone, Copy, PartialEq, Eq, Structural)]
pub enum Step {
    /// Open the connection to the backend.
    Connect,
    /// Commit, sign and submit the batch at this position of the plan.
    Submit { index: usize },
    /// Wait until the backend confirms the batch at this position; it may
    /// still turn out rejected (included with an error) or time out.
    AwaitConfirmation { index: usize },
    /// Every batch has been attempted.
    Finished,
    /// The backend could not be reached; no batch was attempted.
    Aborted,
}

/// What the caller observed while performing the current step.
#[derive(Debug, Clone, Copy, PartialEq, Eq, Structural)]
pub enum Signal {
    Connected,
    Unreachable,
    Accepted,
    Rejected,
    Confirmed,
    TimedOut,
}

/// How one batch ended.
#[derive(Debug, Clone, Copy, PartialEq, Eq, Structural)]
pub enum BatchOutcome {
    Committed,
    Rejected,
    TimedOut,
}

impl BatchOutcome {
    pub fn error_kind(&self) -> (r: Option<ErrorKind>)
        ensures
            r == match *self {
                BatchOutcome::Committed => None,
                BatchOutcome::Rejected => Some(ErrorKind::SubmissionRejected),
                BatchOutcome::TimedOut => Some(ErrorKind::ConfirmationTimeout),
            },
    {
        match self {
            BatchOutcome::Committed => None,
            BatchOutcome::Rejected => Some(ErrorKind::SubmissionRejected),
            BatchOutcome::TimedOut => Some(ErrorKind::ConfirmationTimeout),
        }
    }
}

/// The step after the batch at `index` is settled, one way or another.
pub open spec fn after_batch(index: usize, total: usize) -> Step {
    if index + 1 < total {
        Step::Submit { index: (index + 1) as usize }
    } else {
        Step::Finished
    }
}

/// The next step, and the outcome recorded on the way, when `signal` is
/// observed at `step` with `total` batches planned. A signal that does not
/// belong to the step changes nothing.
pub open spec fn transition(step: Step, total: usize, signal: Signal) -> (Step, Option<
    BatchOutcome,
>) {
    match (step, signal) {
        (Step::Connect, Signal::Connected) => (
            if total == 0 {
                Step::Finished
            } else {
                Step::Submit { index: 0 }
            },
            None,
        ),
        (Step::Connect, Signal::Unreachable) => (Step::Aborted, None),
        (Step::Submit { index }, Signal::Accepted) => (Step::AwaitConfirmation { index }, None),
        (Step::Submit { index }, Signal::Rejected) => (
            after_batch(index, total),
            Some(BatchOutcome::Rejected),
        ),
        (Step::AwaitConfirmation { index }, Signal::Confirmed) => (
            after_batch(index, total),
            Some(BatchOutcome::Committed),
        ),
        (Step::AwaitConfirmation { index }, Signal::TimedOut) => (
            after_batch(index, total),
            Some(BatchOutcome::TimedOut),
        ),
        (Step::AwaitConfirmation { index }, Signal::Rejected) => (
            after_batch(index, total),
            Some(BatchOutcome::Rejected),
        ),
        _ => (step, None),
    }
}

pub open spec fn outcome_seq(o: Option<BatchOutcome>) -> Seq<BatchOutcome> {
    match o {
        Some(x) => seq![x],
        None => seq![],
    }
}

/// The submission of a plan of `total` batches, one at a time.
#[derive(Debug)]
pub struct Submission {
    step: Step,
    total: usize,
    outcomes: Vec<BatchOutcome>,
}

impl Submission {
    pub closed spec fn step_spec(&self) -> Step {
        self.step
    }

    pub closed spec fn total_spec(&self) -> usize {
        self.total
    }

    pub closed spec fn outcomes_spec(&self) -> Seq<BatchOutcome> {
        self.outcomes@
    }

    /// One outcome per batch already settled, in plan order.
    pub open spec fn wf(&self) -> bool {
        let n = self.outcomes_spec().len();
        match self.step_spec() {
            Step::Connect => n == 0,
            Step::Submit { index } => index < self.total_spec() && n == index,
            Step::AwaitConfirmation { index } => index < self.total_spec() && n == index,
            Step::Finished => n == self.total_spec(),
            Step::Aborted => n == 0,
        }
    }

    pub fn new(total: usize) -> (r: Submission)
        ensures
            r.wf(),
            r.step_spec() == Step::Connect,
            r.total_spec() == total,
            r.outcomes_spec() == Seq::<BatchOutcome>::empty(),
    {
        Submission { step: Step::Connect, total, outcomes: Vec::new() }
    }

    pub fn step(&self) -> (r: Step)
        ensures
            r == self.step_spec(),
    {
        self.step
    }

    pub fn total(&self) -> (r: usize)
        ensures
            r == self.total_spec(),
    {
        self.total
    }

    pub fn outcomes(&self) -> (r: &Vec<BatchOutcome>)
        ensures
            r@ == self.outcomes_spec(),
    {
        &self.outcomes
    }

    /// Whether the machine has stopped.
    pub fn is_done(&self) -> (r: bool)
        ensures
            r == (self.step_spec() is Finished || self.step_spec() is Aborted),
    {
        match self.step {
            Step::Finished | Step::Aborted => true,
            _ => false,
        }
    }

    /// The fatal failure that stopped the machine, if any.
    pub fn failure(&self) -> (r: Option<ErrorKind>)
        ensures
            r == if self.step_spec() is Aborted {
                Some(ErrorKind::BackendUnreachable)
            } else {
                None
            },
    {
        match self.step {
            Step::Aborted => Some(ErrorKind::BackendUnreachable),
            _ => None,
        }
    }

    /// Takes in what was observed at the current step and returns the next
    /// step to perform.
    pub fn advance(&mut self, signal: Signal) -> (r: Step)
        requires
            old(self).wf(),
        ensures
            final(self).wf(),
            final(self).total_spec() == old(self).total_spec(),
            final(self).step_spec() == transition(
                old(self).step_spec(),
                old(self).total_spec(),
                signal,
            ).0,
            r == final(self).step_spec(),
            final(self).outcomes_spec() == old(self).outcomes_spec() + outcome_seq(
                transition(old(self).step_spec(), old(self).total_spec(), signal).1,
            ),
    {
        let ghost before = self.outcomes@;
        let (next, outcome) = match (self.step, signal) {
            (Step::Connect, Signal::Connected) => (
                if self.total == 0 {
                    Step::Finished
                } else {
                    Step::Submit { index: 0 }
                },
                None,
            ),
            (Step::Connect, Signal::Unreachable) => (Step::Aborted, None),
            (Step::Submit { index }, Signal::Accepted) => (Step::AwaitConfirmation { index }, None),
            (Step::Submit { index }, Signal::Rejected) => (
                self.after_batch(index),
                Some(BatchOutcome::Rejected),
            ),
            (Step::AwaitConfirmation { index }, Signal::Confirmed) => (
                self.after_batch(index),
                Some(BatchOutcome::Committed),
            ),
            (Step::AwaitConfirmation { index }, Signal::TimedOut) => (
                self.after_batch(index),
                Some(BatchOutcome::TimedOut),
            ),
            (Step::AwaitConfirmation { index }, Signal::Rejected) => (
                self.after_batch(index),
                Some(BatchOutcome::Rejected),
            ),
            _ => (self.step, None),
        };
        match outcome {
            Some(x) => self.outcomes.push(x),
            None => {},
        }
        self.step = next;
        assert(self.outcomes@ =~= before + outcome_seq(outcome));
        next
    }

    fn after_batch(&self, index: usize) -> (r: Step)
        requires
            index < self.total,
        ensures
            r == after_batch(index, self.total),
    {
        if index + 1 < self.total {
            Step::Submit { index: index + 1 }
        } else {
            Step::Finished
        }
    }
}

} // verus!
