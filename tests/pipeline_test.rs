use governance_core::commitment::BatchKind;
use governance_core::error::ErrorKind;
use governance_core::events::SecurityDefinition;
use governance_core::identity::public_key;
use governance_core::pipeline::{plan_batches, BatchOutcome, Signal, Step, Submission};
use governance_core::transfer::{Side, Transfer};
use governance_core::transfer_map::TransferMap;

fn t(amount: u64) -> Transfer {
    Transfer::new(Side::Deposit { to: public_key(b"x") }, amount, 1)
}

#[test]
fn plan_skips_empty_lists() {
    let mut map = TransferMap::new();
    map.insert_fee(SecurityDefinition::Cash, t(1));
    map.insert_tx(SecurityDefinition::Tswe, t(2));
    map.insert_fee(SecurityDefinition::Tswe, t(3));
    map.insert_tx(SecurityDefinition::Tswe, t(4));
    let plan = plan_batches(map.into_transfers());
    assert_eq!(plan.len(), 3);
    assert_eq!((plan[0].security, plan[0].kind), (SecurityDefinition::Cash, BatchKind::Fee));
    assert_eq!(plan[0].transfers, vec![t(1)]);
    assert_eq!((plan[1].security, plan[1].kind), (SecurityDefinition::Tswe, BatchKind::Transfer));
    assert_eq!(plan[1].transfers, vec![t(2), t(4)]);
    assert_eq!((plan[2].security, plan[2].kind), (SecurityDefinition::Tswe, BatchKind::Fee));
    assert!(plan.iter().all(|p| !p.transfers.is_empty()));
    assert!(plan_batches(vec![]).is_empty());
}

#[test]
fn submission_runs_each_batch_in_turn() {
    let mut s = Submission::new(2);
    assert_eq!(s.step(), Step::Connect);
    assert_eq!(s.advance(Signal::Connected), Step::Submit { index: 0 });
    assert_eq!(s.advance(Signal::Accepted), Step::AwaitConfirmation { index: 0 });
    assert_eq!(s.advance(Signal::Confirmed), Step::Submit { index: 1 });
    assert_eq!(s.advance(Signal::Rejected), Step::Finished);
    assert!(s.is_done());
    assert_eq!(s.outcomes(), &vec![BatchOutcome::Committed, BatchOutcome::Rejected]);
    assert_eq!(s.total(), 2);
}

#[test]
fn unreachable_backend_aborts_before_any_batch() {
    let mut s = Submission::new(3);
    assert_eq!(s.advance(Signal::Unreachable), Step::Aborted);
    assert!(s.is_done());
    assert!(s.outcomes().is_empty());
    assert_eq!(s.advance(Signal::Connected), Step::Aborted);
}

#[test]
fn timeout_is_not_rejection() {
    let mut s = Submission::new(1);
    s.advance(Signal::Connected);
    s.advance(Signal::Accepted);
    assert_eq!(s.advance(Signal::Confirmed.clone()), Step::Finished);
    let mut u = Submission::new(1);
    u.advance(Signal::Connected);
    u.advance(Signal::Accepted);
    assert_eq!(u.advance(Signal::TimedOut), Step::Finished);
    assert_eq!(u.outcomes(), &vec![BatchOutcome::TimedOut]);
    assert_eq!(BatchOutcome::TimedOut.error_kind(), Some(ErrorKind::ConfirmationTimeout));
    assert_eq!(BatchOutcome::Rejected.error_kind(), Some(ErrorKind::SubmissionRejected));
    assert_eq!(BatchOutcome::Committed.error_kind(), None);
}

#[test]
fn stray_signals_change_nothing() {
    let mut s = Submission::new(1);
    assert_eq!(s.advance(Signal::Confirmed), Step::Connect);
    s.advance(Signal::Connected);
    assert_eq!(s.advance(Signal::TimedOut), Step::Submit { index: 0 });
    assert!(s.outcomes().is_empty());
    let mut empty = Submission::new(0);
    assert_eq!(empty.advance(Signal::Connected), Step::Finished);
}

#[test]
fn failed_inclusion_is_a_rejection() {
    let mut s = Submission::new(2);
    s.advance(Signal::Connected);
    s.advance(Signal::Accepted);
    assert_eq!(s.advance(Signal::Rejected), Step::Submit { index: 1 });
    assert_eq!(s.outcomes(), &vec![BatchOutcome::Rejected]);
    assert_eq!(s.failure(), None);
    let mut down = Submission::new(1);
    down.advance(Signal::Unreachable);
    assert_eq!(down.failure(), Some(ErrorKind::BackendUnreachable));
}
