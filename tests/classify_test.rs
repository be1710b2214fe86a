use governance_core::classify::classify;
use governance_core::classify::classify_change;
use governance_core::error::{ErrorKind, FeedError};
use governance_core::events::{
    AccountEvents, Cause, Change, ChangeType, Event, Events, SecurityDefinition,
};
use governance_core::identity::public_key;
use governance_core::transfer::{Quantity, Side, Transfer};
use governance_core::transfer_map::{SecurityBatch, TransferMap};

const T: u64 = 0x4000_0000_6330_2a2a;

fn micro(x: f64) -> Quantity {
    Quantity::new(x < 0.0, (x.abs() * 1_000_000.0) as u64)
}

fn change(change_type: ChangeType, security: SecurityDefinition, size: f64) -> Change {
    Change { change_type, security, size: micro(size), price: micro(1.0) }
}

fn account(name: &str, events: Vec<Event>) -> AccountEvents {
    AccountEvents { account_name: name.as_bytes().to_vec(), events: Events { events } }
}

fn batches(feed: &Vec<AccountEvents>, ts: Option<u64>) -> Vec<SecurityBatch> {
    classify(feed, ts).expect("feed classifies").into_transfers()
}

#[test]
fn deposit_scenario_emits_one_cash_deposit() {
    let feed = vec![account(
        "Acct1",
        vec![Event {
            cause: Cause::Deposit,
            occurrence: T,
            changes: vec![change(ChangeType::Cash, SecurityDefinition::Cash, 100.0)],
        }],
    )];
    let out = batches(&feed, None);
    assert_eq!(out.len(), 1);
    assert_eq!(out[0].security, SecurityDefinition::Cash);
    assert!(out[0].fees.is_empty());
    assert_eq!(
        out[0].transfers,
        vec![Transfer {
            side: Side::Deposit { to: public_key(b"Cash") },
            amount: 100_000_000,
            timestamp: T,
        }]
    );
}

#[test]
fn rebalance_scenario_splits_cash_and_security() {
    let feed = vec![account(
        "TestAccount1",
        vec![Event {
            cause: Cause::Rebalance,
            occurrence: T,
            changes: vec![
                change(ChangeType::Cash, SecurityDefinition::Unspecified, -99814.8),
                change(ChangeType::Security, SecurityDefinition::Tswe, 984.0),
            ],
        }],
    )];
    let out = batches(&feed, None);
    assert_eq!(out.len(), 2);
    assert_eq!(out[0].security, SecurityDefinition::Cash);
    assert_eq!(
        out[0].transfers,
        vec![Transfer {
            side: Side::Withdrawal { from: public_key(b"TestAccount1") },
            amount: 99_814_800_000,
            timestamp: T,
        }]
    );
    assert_eq!(out[1].security, SecurityDefinition::Tswe);
    assert_eq!(
        out[1].transfers,
        vec![Transfer {
            side: Side::Deposit { to: public_key(b"TSWE") },
            amount: 984_000_000,
            timestamp: T,
        }]
    );
    assert_eq!(out[0].transfers[0].timestamp, out[1].transfers[0].timestamp);
}

#[test]
fn rebalance_sign_rule() {
    let from = public_key(b"acct");
    let down = change(ChangeType::Security, SecurityDefinition::Tret, -50.0);
    let up = change(ChangeType::Security, SecurityDefinition::Tret, 50.0);
    let w = classify_change(Cause::Rebalance, &down, &from, 9).unwrap().unwrap();
    assert_eq!(w.security, SecurityDefinition::Tret);
    assert!(!w.fee);
    assert_eq!(w.transfer, Transfer { side: Side::Withdrawal { from }, amount: 50_000_000, timestamp: 9 });
    let d = classify_change(Cause::Rebalance, &up, &from, 9).unwrap().unwrap();
    assert_eq!(
        d.transfer,
        Transfer { side: Side::Deposit { to: public_key(b"TRET") }, amount: 50_000_000, timestamp: 9 }
    );
    let zero = change(ChangeType::Cash, SecurityDefinition::Cash, 0.0);
    let z = classify_change(Cause::Rebalance, &zero, &from, 9).unwrap().unwrap();
    assert_eq!(z.transfer.to_key(), Some(public_key(b"Cash")));
    assert_eq!(z.transfer.amount, 0);
}

#[test]
fn reservations_never_emit() {
    let from = public_key(b"acct");
    for cause in [Cause::Deposit, Cause::Withdrawal, Cause::Rebalance, Cause::Fee] {
        for security in [SecurityDefinition::Cash, SecurityDefinition::Tgbt, SecurityDefinition::Unspecified] {
            let c = change(ChangeType::Reservation, security, 12.5);
            assert_eq!(classify_change(cause, &c, &from, 1), Ok(None));
        }
    }
    let feed = vec![account(
        "a",
        vec![Event {
            cause: Cause::Deposit,
            occurrence: T,
            changes: vec![change(ChangeType::Reservation, SecurityDefinition::Tcbt, 3.0)],
        }],
    )];
    assert!(batches(&feed, None).is_empty());
}

#[test]
fn cash_only_causes_reject_securities() {
    let dep = vec![account(
        "a",
        vec![
            Event { cause: Cause::Deposit, occurrence: T, changes: vec![change(ChangeType::Cash, SecurityDefinition::Cash, 1.0)] },
            Event {
                cause: Cause::Withdrawal,
                occurrence: T,
                changes: vec![
                    change(ChangeType::Cash, SecurityDefinition::Unspecified, -4.0),
                    change(ChangeType::Security, SecurityDefinition::Tswe, 2.0),
                ],
            },
        ],
    )];
    assert_eq!(
        classify(&dep, None).err(),
        Some(FeedError::InconsistentSecurity { account: 0, event: 1, change: 1 })
    );
    assert_eq!(FeedError::InconsistentSecurity { account: 0, event: 1, change: 1 }.kind(), ErrorKind::InconsistentSecurity);
    let from = public_key(b"a");
    let cash_named = change(ChangeType::Cash, SecurityDefinition::Tcbt, 1.0);
    assert_eq!(classify_change(Cause::Fee, &cash_named, &from, 0), Err(ErrorKind::InconsistentSecurity));
    let unnamed_security = change(ChangeType::Security, SecurityDefinition::Unspecified, 1.0);
    assert_eq!(classify_change(Cause::Rebalance, &unnamed_security, &from, 0), Err(ErrorKind::InconsistentSecurity));
}

#[test]
fn withdrawals_and_fees_go_to_cash() {
    let feed = vec![account(
        "payer",
        vec![
            Event { cause: Cause::Withdrawal, occurrence: 5, changes: vec![change(ChangeType::Cash, SecurityDefinition::Unspecified, -7.0)] },
            Event { cause: Cause::Fee, occurrence: 6, changes: vec![change(ChangeType::Cash, SecurityDefinition::Cash, 0.25)] },
        ],
    )];
    let out = batches(&feed, None);
    assert_eq!(out.len(), 1);
    assert_eq!(out[0].security, SecurityDefinition::Cash);
    let payer = public_key(b"payer");
    assert_eq!(out[0].transfers, vec![Transfer { side: Side::Withdrawal { from: payer }, amount: 7_000_000, timestamp: 5 }]);
    assert_eq!(out[0].fees, vec![Transfer { side: Side::Withdrawal { from: payer }, amount: 250_000, timestamp: 6 }]);
}

fn two_account_feed() -> Vec<AccountEvents> {
    vec![
        account(
            "TestAccount1",
            vec![
                Event { cause: Cause::Deposit, occurrence: 100, changes: vec![change(ChangeType::Cash, SecurityDefinition::Unspecified, 100000.0)] },
                Event {
                    cause: Cause::Rebalance,
                    occurrence: 200,
                    changes: vec![
                        change(ChangeType::Cash, SecurityDefinition::Unspecified, -99814.8),
                        change(ChangeType::Security, SecurityDefinition::Tswe, 984.0),
                        change(ChangeType::Security, SecurityDefinition::Tret, 681.0),
                    ],
                },
            ],
        ),
        account(
            "Dusk1",
            vec![Event {
                cause: Cause::Rebalance,
                occurrence: 300,
                changes: vec![
                    change(ChangeType::Security, SecurityDefinition::Tswe, -10.9919),
                    change(ChangeType::Cash, SecurityDefinition::Unspecified, -2896.09),
                ],
            }],
        ),
    ]
}

#[test]
fn classification_is_deterministic() {
    let feed = two_account_feed();
    let first = batches(&feed, Some(77));
    let second = batches(&feed, Some(77));
    assert_eq!(first, second);
    for b in &first {
        for t in b.transfers.iter().chain(b.fees.iter()) {
            assert_eq!(t.timestamp, 77);
        }
    }
    let unstamped = batches(&feed, None);
    assert_eq!(unstamped[0].transfers[0].timestamp, 100);
}

#[test]
fn batches_keep_arrival_order_per_security() {
    let out = batches(&two_account_feed(), None);
    let order: Vec<SecurityDefinition> = out.iter().map(|b| b.security).collect();
    assert_eq!(order, vec![SecurityDefinition::Cash, SecurityDefinition::Tswe, SecurityDefinition::Tret]);
    let cash: Vec<u64> = out[0].transfers.iter().map(|t| t.amount).collect();
    assert_eq!(cash, vec![100_000_000_000, 99_814_800_000, 2_896_090_000]);
    assert_eq!(out[1].transfers.len(), 2);
    assert_eq!(out[1].transfers[1].from_key(), Some(public_key(b"Dusk1")));
}

#[test]
fn every_transfer_has_exactly_one_party() {
    for b in batches(&two_account_feed(), None) {
        for t in b.transfers.iter().chain(b.fees.iter()) {
            assert!(t.from_key().is_some() != t.to_key().is_some());
        }
    }
}

#[test]
fn transfer_map_creates_batches_on_first_reference() {
    let mut map = TransferMap::new();
    let a = public_key(b"a");
    let t1 = Transfer::new(Side::Deposit { to: a }, 1, 1);
    let t2 = Transfer::new(Side::Withdrawal { from: a }, 2, 2);
    map.insert_fee(SecurityDefinition::Tgbt, t1);
    map.insert_tx(SecurityDefinition::Cash, t2);
    map.insert_tx(SecurityDefinition::Tgbt, t2);
    map.insert_tx(SecurityDefinition::Tgbt, t1);
    assert_eq!(map.len(), 2);
    let out = map.into_transfers();
    assert_eq!(out[0], SecurityBatch { security: SecurityDefinition::Tgbt, transfers: vec![t2, t1], fees: vec![t1] });
    assert_eq!(out[1], SecurityBatch { security: SecurityDefinition::Cash, transfers: vec![t2], fees: vec![] });
}

#[test]
fn transfer_builders() {
    let a = public_key(b"a");
    let b = public_key(b"b");
    let mut t = Transfer::new(Side::Deposit { to: a }, 5, 6);
    assert_eq!(t.amount(9).amount, 9);
    let w = t.withdraw(b);
    assert_eq!(w, Transfer { side: Side::Withdrawal { from: b }, amount: 9, timestamp: 6 });
    assert_eq!(t.from_key(), Some(b));
    assert_eq!(t.to_key(), None);
    let d = t.deposit(a);
    assert_eq!(d.to_key(), Some(a));
    assert_eq!(d.from_key(), None);
}

#[test]
fn deposit_receiver_comes_from_the_change_security() {
    let feed = vec![account(
        "Acct1",
        vec![Event {
            cause: Cause::Deposit,
            occurrence: T,
            changes: vec![change(ChangeType::Cash, SecurityDefinition::Unspecified, 3000.0)],
        }],
    )];
    let out = batches(&feed, None);
    assert_eq!(out[0].security, SecurityDefinition::Cash);
    assert_eq!(out[0].transfers[0].to_key(), Some(public_key(b"None")));
    assert_ne!(public_key(b"None"), public_key(b"Cash"));
}

#[test]
fn inserted_reservation_changes_nothing() {
    let feed = two_account_feed();
    let mut with_reservation = two_account_feed();
    with_reservation[0].events.events[1]
        .changes
        .insert(1, change(ChangeType::Reservation, SecurityDefinition::Tcbt, 5.0));
    assert_eq!(batches(&feed, None), batches(&with_reservation, None));
}
