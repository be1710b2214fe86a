//! Classification of feed events into transfer and fee emissions, and the
//! single pass that aggregates a whole feed into per-security batches.
//!
//! Policy: deposits, withdrawals and fees move cash only; their changes
//! must be cash changes (with security `Cash` or none) and settle on the
//! `Cash` batch, and their amount is the size's magnitude, the direction
//! coming from the cause. Rebalances may move cash or securities; the sign of
//! the size gives the direction. Reservations are skipped. A deposit goes
//! to the identifier derived from the name of the change's own security
//! (`None` where the feed gives none), whatever batch it settles on.

use vstd::prelude::*;

use crate::error::{ErrorKind, FeedError};
use crate::events::{
    security_name, AccountEvents, Cause, Change, ChangeType, Event, SecurityDefinition,
};
use crate::identity::{derived_identifier, public_key, Identifier};
use crate::transfer::{Side, Transfer, TransferView};
use crate::transfer_map::{slot, with_emission, BatchView, TransferMap};

verus! {

/// One classified change: the batch it goes to, whether it is a fee, and
/// the transfer.
#[derive(Debug, Clone, Copy, PartialEq, Eq)]
pub struct Emission {
    pub security: SecurityDefinition,
    pub fee: bool,
    pub transfer: Transfer,
}

pub struct EmissionView {
    pub security: SecurityDefinition,
    pub fee: bool,
    pub transfer: TransferView,
}

impl View for Emission {
    type V = EmissionView;

    open spec fn view(&self) -> EmissionView {
        EmissionView { security: self.security, fee: self.fee, transfer: self.transfer@ }
    }
}

/// The batch a change settles on: cash changes (with security `Cash` or
/// none) settle on `Cash`, security changes on their named security; any
/// other pairing settles nowhere.
pub open spec fn settles_on(t: ChangeType, s: SecurityDefinition) -> Option<SecurityDefinition> {
    let cashlike = s == SecurityDefinition::Cash || s == SecurityDefinition::Unspecified;
    match t {
        ChangeType::Cash => if cashlike {
            Some(SecurityDefinition::Cash)
        } else {
            None
        },
        ChangeType::Security => if cashlike {
            None
        } else {
            Some(s)
        },
        ChangeType::Reservation => None,
    }
}

/// A deposit into the batch `key`, to the identifier derived from the name of
/// the change's own security `named`.
pub open spec fn deposit_view(
    key: SecurityDefinition,
    named: SecurityDefinition,
    amount: u64,
    ts: u64,
) -> EmissionView {
    EmissionView {
        security: key,
        fee: false,
        transfer: TransferView {
            deposit: true,
            party: derived_identifier(security_name(named)),
            amount,
            timestamp: ts,
        },
    }
}

pub open spec fn withdrawal_view(
    key: SecurityDefinition,
    fee: bool,
    from: Seq<u8>,
    amount: u64,
    ts: u64,
) -> EmissionView {
    EmissionView {
        security: key,
        fee,
        transfer: TransferView { deposit: false, party: from, amount, timestamp: ts },
    }
}

/// What one change of an event with `cause` emits, for an account whose
/// identifier is `from`, at time `ts`: nothing, one emission, or an
/// inconsistency.
pub open spec fn change_emission(cause: Cause, c: Change, from: Seq<u8>, ts: u64) -> Result<
    Option<EmissionView>,
    ErrorKind,
> {
    if c.change_type == ChangeType::Reservation {
        Ok(None)
    } else {
        match settles_on(c.change_type, c.security) {
            None => Err(ErrorKind::InconsistentSecurity),
            Some(key) => match cause {
                Cause::Rebalance => if c.size.negative {
                    Ok(Some(withdrawal_view(key, false, from, c.size.magnitude, ts)))
                } else {
                    Ok(Some(deposit_view(key, c.security, c.size.magnitude, ts)))
                },
                _ => if key != SecurityDefinition::Cash {
                    Err(ErrorKind::InconsistentSecurity)
                } else {
                    match cause {
                        Cause::Deposit => Ok(Some(deposit_view(key, c.security, c.size.magnitude, ts))),
                        Cause::Withdrawal => Ok(
                            Some(withdrawal_view(key, false, from, c.size.magnitude, ts)),
                        ),
                        _ => Ok(Some(withdrawal_view(key, true, from, c.size.magnitude, ts))),
                    }
                },
            },
        }
    }
}

/// The timestamp of the transfers of an event: the override where one is
/// given, else the event's occurrence.
pub open spec fn stamp(ovr: Option<u64>, e: Event) -> u64 {
    match ovr {
        Some(t) => t,
        None => e.occurrence,
    }
}

/// The emissions of the first `k` changes of event `ev` of account `a`, or
/// the first inconsistency among them.
pub open spec fn event_emissions(
    e: Event,
    from: Seq<u8>,
    ovr: Option<u64>,
    a: int,
    ev: int,
    k: int,
) -> Result<Seq<EmissionView>, FeedError>
    decreases k,
{
    if k <= 0 {
        Ok(seq![])
    } else {
        match event_emissions(e, from, ovr, a, ev, k - 1) {
            Err(x) => Err(x),
            Ok(es) => match change_emission(e.cause, e.changes@[k - 1], from, stamp(ovr, e)) {
                Err(_) => Err(
                    FeedError::InconsistentSecurity {
                        account: a as usize,
                        event: ev as usize,
                        change: (k - 1) as usize,
                    },
                ),
                Ok(None) => Ok(es),
                Ok(Some(x)) => Ok(es.push(x)),
            },
        }
    }
}

/// The emissions of the first `k` events of account `acct` (at position `a`).
pub open spec fn account_emissions(acct: AccountEvents, ovr: Option<u64>, a: int, k: int) -> Result<
    Seq<EmissionView>,
    FeedError,
>
    decreases k,
{
    if k <= 0 {
        Ok(seq![])
    } else {
        match account_emissions(acct, ovr, a, k - 1) {
            Err(x) => Err(x),
            Ok(es) => {
                let e = acct.events.events@[k - 1];
                match event_emissions(
                    e,
                    derived_identifier(acct.account_name@),
                    ovr,
                    a,
                    k - 1,
                    e.changes@.len() as int,
                ) {
                    Err(x) => Err(x),
                    Ok(more) => Ok(es + more),
                }
            },
        }
    }
}

/// The emissions of the first `k` accounts of a feed.
pub open spec fn feed_emissions(feed: Seq<AccountEvents>, ovr: Option<u64>, k: int) -> Result<
    Seq<EmissionView>,
    FeedError,
>
    decreases k,
{
    if k <= 0 {
        Ok(seq![])
    } else {
        match feed_emissions(feed, ovr, k - 1) {
            Err(x) => Err(x),
            Ok(es) => match account_emissions(
                feed[k - 1],
                ovr,
                k - 1,
                feed[k - 1].events.events@.len() as int,
            ) {
                Err(x) => Err(x),
                Ok(more) => Ok(es + more),
            },
        }
    }
}

/// The batches after a sequence of emissions, in order.
pub open spec fn apply_emissions(m: Seq<BatchView>, es: Seq<EmissionView>) -> Seq<BatchView>
    decreases es.len(),
{
    if es.len() == 0 {
        m
    } else {
        let x = es.last();
        with_emission(apply_emissions(m, es.drop_last()), x.security, x.fee, x.transfer)
    }
}

/// The batches a feed classifies to under a timestamp override, or the
/// first inconsistency in it.
pub open spec fn classified(feed: Seq<AccountEvents>, ovr: Option<u64>) -> Result<
    Seq<BatchView>,
    FeedError,
> {
    match feed_emissions(feed, ovr, feed.len() as int) {
        Ok(es) => Ok(apply_emissions(seq![], es)),
        Err(x) => Err(x),
    }
}

proof fn lemma_apply_concat(m: Seq<BatchView>, a: Seq<EmissionView>, b: Seq<EmissionView>)
    ensures
        apply_emissions(m, a + b) == apply_emissions(apply_emissions(m, a), b),
    decreases b.len(),
{
    if b.len() > 0 {
        assert((a + b).drop_last() =~= a + b.drop_last());
        lemma_apply_concat(m, a, b.drop_last());
    } else {
        assert(a + b =~= a);
    }
}

proof fn lemma_event_err_sticks(
    e: Event,
    from: Seq<u8>,
    ovr: Option<u64>,
    a: int,
    ev: int,
    k: int,
    n: int,
)
    requires
        0 <= k <= n,
        event_emissions(e, from, ovr, a, ev, k) is Err,
    ensures
        event_emissions(e, from, ovr, a, ev, n) == event_emissions(e, from, ovr, a, ev, k),
    decreases n - k,
{
    if n > k {
        lemma_event_err_sticks(e, from, ovr, a, ev, k, n - 1);
    }
}

proof fn lemma_account_err_sticks(acct: AccountEvents, ovr: Option<u64>, a: int, k: int, n: int)
    requires
        0 <= k <= n,
        account_emissions(acct, ovr, a, k) is Err,
    ensures
        account_emissions(acct, ovr, a, n) == account_emissions(acct, ovr, a, k),
    decreases n - k,
{
    if n > k {
        lemma_account_err_sticks(acct, ovr, a, k, n - 1);
    }
}

proof fn lemma_feed_err_sticks(feed: Seq<AccountEvents>, ovr: Option<u64>, k: int, n: int)
    requires
        0 <= k <= n,
        feed_emissions(feed, ovr, k) is Err,
    ensures
        feed_emissions(feed, ovr, n) == feed_emissions(feed, ovr, k),
    decreases n - k,
{
    if n > k {
        lemma_feed_err_sticks(feed, ovr, k, n - 1);
    }
}

/// A change of a reservation emits nothing, whatever the cause of its event.
pub proof fn lemma_reservation_skipped(cause: Cause, c: Change, from: Seq<u8>, ts: u64)
    requires
        c.change_type == ChangeType::Reservation,
    ensures
        change_emission(cause, c, from, ts) == Ok::<Option<EmissionView>, ErrorKind>(None),
{
}

/// Under a rebalance, a negative size withdraws its magnitude from the
/// account, and any other size deposits it to the security's identifier.
pub proof fn lemma_rebalance_sign(c: Change, from: Seq<u8>, ts: u64)
    requires
        c.change_type != ChangeType::Reservation,
        settles_on(c.change_type, c.security) is Some,
    ensures
        ({
            let key = settles_on(c.change_type, c.security)->Some_0;
            change_emission(Cause::Rebalance, c, from, ts) == Ok::<Option<EmissionView>, ErrorKind>(
                Some(
                    if c.size.negative {
                        withdrawal_view(key, false, from, c.size.magnitude, ts)
                    } else {
                        deposit_view(key, c.security, c.size.magnitude, ts)
                    },
                ),
            )
        }),
{
}

/// Deposits, withdrawals and fees settle on cash only: what they emit goes
/// to the `Cash` batch, and a change of theirs that does not settle on cash
/// is an inconsistency.
pub proof fn lemma_cash_only_causes(cause: Cause, c: Change, from: Seq<u8>, ts: u64)
    requires
        cause != Cause::Rebalance,
    ensures
        change_emission(cause, c, from, ts) matches Ok(Some(x)) ==> x.security
            == SecurityDefinition::Cash,
        c.change_type != ChangeType::Reservation && settles_on(c.change_type, c.security) != Some(
            SecurityDefinition::Cash,
        ) ==> change_emission(cause, c, from, ts) == Err::<Option<EmissionView>, ErrorKind>(
            ErrorKind::InconsistentSecurity,
        ),
{
}

/// An event made of reservations only emits nothing, whatever its cause.
pub proof fn lemma_reservation_event_silent(
    e: Event,
    from: Seq<u8>,
    ovr: Option<u64>,
    a: int,
    ev: int,
    k: int,
)
    requires
        0 <= k <= e.changes@.len(),
        forall|i: int|
            0 <= i < e.changes@.len() ==> (#[trigger] e.changes@[i]).change_type
                == ChangeType::Reservation,
    ensures
        event_emissions(e, from, ovr, a, ev, k) == Ok::<Seq<EmissionView>, FeedError>(seq![]),
    decreases k,
{
    if k > 0 {
        lemma_reservation_event_silent(e, from, ovr, a, ev, k - 1);
        lemma_reservation_skipped(e.cause, e.changes@[k - 1], from, stamp(ovr, e));
    }
}

/// Everything that a deposit, withdrawal or fee event emits goes to the
/// `Cash` batch.
pub proof fn lemma_cash_only_events(
    e: Event,
    from: Seq<u8>,
    ovr: Option<u64>,
    a: int,
    ev: int,
    k: int,
)
    requires
        e.cause != Cause::Rebalance,
    ensures
        event_emissions(e, from, ovr, a, ev, k) matches Ok(es) ==> forall|i: int|
            0 <= i < es.len() ==> (#[trigger] es[i]).security == SecurityDefinition::Cash,
    decreases k,
{
    if k > 0 {
        lemma_cash_only_events(e, from, ovr, a, ev, k - 1);
        lemma_cash_only_causes(e.cause, e.changes@[k - 1], from, stamp(ovr, e));
    }
}

proof fn lemma_event_err_kind(e: Event, from: Seq<u8>, ovr: Option<u64>, a: int, ev: int, k: int)
    ensures
        event_emissions(e, from, ovr, a, ev, k) matches Err(x) ==> x is InconsistentSecurity,
    decreases k,
{
    if k > 0 {
        lemma_event_err_kind(e, from, ovr, a, ev, k - 1);
    }
}

proof fn lemma_account_err_kind(acct: AccountEvents, ovr: Option<u64>, a: int, k: int)
    ensures
        account_emissions(acct, ovr, a, k) matches Err(x) ==> x is InconsistentSecurity,
    decreases k,
{
    if k > 0 {
        lemma_account_err_kind(acct, ovr, a, k - 1);
        let e = acct.events.events@[k - 1];
        lemma_event_err_kind(
            e,
            derived_identifier(acct.account_name@),
            ovr,
            a,
            k - 1,
            e.changes@.len() as int,
        );
    }
}

proof fn lemma_feed_err_kind(feed: Seq<AccountEvents>, ovr: Option<u64>, k: int)
    ensures
        feed_emissions(feed, ovr, k) matches Err(x) ==> x is InconsistentSecurity,
    decreases k,
{
    if k > 0 {
        lemma_feed_err_kind(feed, ovr, k - 1);
        lemma_account_err_kind(feed[k - 1], ovr, k - 1, feed[k - 1].events.events@.len() as int);
    }
}

/// A feed with a change that its event's cause cannot emit (under any
/// timestamp override) is rejected as a whole, with an inconsistency.
pub proof fn lemma_inconsistent_feed_rejected(
    feed: Seq<AccountEvents>,
    ovr: Option<u64>,
    a: int,
    ev: int,
    k: int,
)
    requires
        0 <= a < feed.len(),
        0 <= ev < feed[a].events.events@.len(),
        0 <= k < feed[a].events.events@[ev].changes@.len(),
        change_emission(
            feed[a].events.events@[ev].cause,
            feed[a].events.events@[ev].changes@[k],
            derived_identifier(feed[a].account_name@),
            stamp(ovr, feed[a].events.events@[ev]),
        ) is Err,
    ensures
        classified(feed, ovr) matches Err(x) && x is InconsistentSecurity,
{
    let acct = feed[a];
    let e = acct.events.events@[ev];
    let from = derived_identifier(acct.account_name@);
    let n = e.changes@.len() as int;
    assert(event_emissions(e, from, ovr, a, ev, k + 1) is Err);
    lemma_event_err_sticks(e, from, ovr, a, ev, k + 1, n);
    assert(account_emissions(acct, ovr, a, ev + 1) is Err);
    lemma_account_err_sticks(acct, ovr, a, ev + 1, acct.events.events@.len() as int);
    assert(feed_emissions(feed, ovr, a + 1) is Err);
    lemma_feed_err_sticks(feed, ovr, a + 1, feed.len() as int);
    lemma_feed_err_kind(feed, ovr, feed.len() as int);
}

/// Whether the batches hold emission `x`: its transfer is in the fees (for a
/// fee) or the transfers of the batch of its security.
pub open spec fn holds_emission(m: Seq<BatchView>, x: EmissionView) -> bool {
    exists|i: int|
        0 <= i < m.len() && (#[trigger] m[i]).security == x.security && if x.fee {
            m[i].fees.contains(x.transfer)
        } else {
            m[i].transfers.contains(x.transfer)
        }
}

proof fn lemma_slot_found(m: Seq<BatchView>, s: SecurityDefinition)
    ensures
        -1 <= slot(m, s) < m.len(),
        slot(m, s) >= 0 ==> m[slot(m, s)].security == s,
    decreases m.len(),
{
    if m.len() > 0 {
        lemma_slot_found(m.drop_last(), s);
    }
}

proof fn lemma_with_emission_holds(
    m: Seq<BatchView>,
    s: SecurityDefinition,
    fee: bool,
    t: TransferView,
    x: EmissionView,
)
    ensures
        holds_emission(with_emission(m, s, fee, t), EmissionView { security: s, fee, transfer: t }),
        holds_emission(m, x) ==> holds_emission(with_emission(m, s, fee, t), x),
{
    lemma_slot_found(m, s);
    let m2 = with_emission(m, s, fee, t);
    let k = slot(m, s);
    let j = if k >= 0 { k } else { m.len() as int };
    assert(m2[j].security == s);
    if fee {
        assert(m2[j].fees.last() == t);
    } else {
        assert(m2[j].transfers.last() == t);
    }
    if holds_emission(m, x) {
        let i = choose|i: int|
            0 <= i < m.len() && (#[trigger] m[i]).security == x.security && if x.fee {
                m[i].fees.contains(x.transfer)
            } else {
                m[i].transfers.contains(x.transfer)
            };
        assert(m2[i].security == x.security);
        if x.fee {
            let w = choose|w: int| 0 <= w < m[i].fees.len() && m[i].fees[w] == x.transfer;
            assert(m2[i].fees[w] == x.transfer);
        } else {
            let w = choose|w: int| 0 <= w < m[i].transfers.len() && m[i].transfers[w] == x.transfer;
            assert(m2[i].transfers[w] == x.transfer);
        }
    }
}

proof fn lemma_apply_holds(m: Seq<BatchView>, es: Seq<EmissionView>, x: EmissionView)
    requires
        es.contains(x),
    ensures
        holds_emission(apply_emissions(m, es), x),
    decreases es.len(),
{
    let p = es.drop_last();
    let y = es.last();
    lemma_with_emission_holds(apply_emissions(m, p), y.security, y.fee, y.transfer, x);
    if x != y {
        let w = choose|w: int| 0 <= w < es.len() && es[w] == x;
        assert(w < es.len() - 1);
        assert(p[w] == x);
        lemma_apply_holds(m, p, x);
    }
}

proof fn lemma_concat_contains(a: Seq<EmissionView>, b: Seq<EmissionView>, x: EmissionView)
    requires
        a.contains(x) || b.contains(x),
    ensures
        (a + b).contains(x),
{
    if a.contains(x) {
        let w = choose|w: int| 0 <= w < a.len() && a[w] == x;
        assert((a + b)[w] == x);
    } else {
        let w = choose|w: int| 0 <= w < b.len() && b[w] == x;
        assert((a + b)[a.len() + w] == x);
    }
}

proof fn lemma_event_contains(
    e: Event,
    from: Seq<u8>,
    ovr: Option<u64>,
    a: int,
    ev: int,
    k: int,
    n: int,
    x: EmissionView,
)
    requires
        0 <= k < n,
        change_emission(e.cause, e.changes@[k], from, stamp(ovr, e)) == Ok::<
            Option<EmissionView>,
            ErrorKind,
        >(Some(x)),
        event_emissions(e, from, ovr, a, ev, n) is Ok,
    ensures
        event_emissions(e, from, ovr, a, ev, n)->Ok_0.contains(x),
    decreases n,
{
    let es = event_emissions(e, from, ovr, a, ev, n)->Ok_0;
    let prev = event_emissions(e, from, ovr, a, ev, n - 1);
    if n == k + 1 {
        assert(es[es.len() - 1] == x);
    } else {
        lemma_event_contains(e, from, ovr, a, ev, k, n - 1, x);
        let p = prev->Ok_0;
        let w = choose|w: int| 0 <= w < p.len() && p[w] == x;
        assert(es[w] == x);
    }
}

proof fn lemma_account_contains(acct: AccountEvents, ovr: Option<u64>, a: int, ev: int, n: int, x: EmissionView)
    requires
        0 <= ev < n,
        event_emissions(
            acct.events.events@[ev],
            derived_identifier(acct.account_name@),
            ovr,
            a,
            ev,
            acct.events.events@[ev].changes@.len() as int,
        ) matches Ok(es) && es.contains(x),
        account_emissions(acct, ovr, a, n) is Ok,
    ensures
        account_emissions(acct, ovr, a, n)->Ok_0.contains(x),
    decreases n,
{
    let prev = account_emissions(acct, ovr, a, n - 1)->Ok_0;
    let e = acct.events.events@[n - 1];
    let more = event_emissions(
        e,
        derived_identifier(acct.account_name@),
        ovr,
        a,
        n - 1,
        e.changes@.len() as int,
    )->Ok_0;
    if n > ev + 1 {
        lemma_account_contains(acct, ovr, a, ev, n - 1, x);
    }
    lemma_concat_contains(prev, more, x);
}

proof fn lemma_feed_contains(feed: Seq<AccountEvents>, ovr: Option<u64>, a: int, n: int, x: EmissionView)
    requires
        0 <= a < n <= feed.len(),
        account_emissions(feed[a], ovr, a, feed[a].events.events@.len() as int) matches Ok(es)
            && es.contains(x),
        feed_emissions(feed, ovr, n) is Ok,
    ensures
        feed_emissions(feed, ovr, n)->Ok_0.contains(x),
    decreases n,
{
    let prev = feed_emissions(feed, ovr, n - 1)->Ok_0;
    let more = account_emissions(
        feed[n - 1],
        ovr,
        n - 1,
        feed[n - 1].events.events@.len() as int,
    )->Ok_0;
    if n > a + 1 {
        lemma_feed_contains(feed, ovr, a, n - 1, x);
    }
    lemma_concat_contains(prev, more, x);
}

/// In a feed that classifies, every change of a deposit, withdrawal or fee
/// event, reservations aside, is emitted into the `Cash` batch: into its
/// fees for a fee event, into its transfers otherwise.
pub proof fn lemma_cash_only_feed(feed: Seq<AccountEvents>, ovr: Option<u64>, a: int, ev: int, k: int)
    requires
        0 <= a < feed.len(),
        0 <= ev < feed[a].events.events@.len(),
        0 <= k < feed[a].events.events@[ev].changes@.len(),
        feed[a].events.events@[ev].cause != Cause::Rebalance,
        feed[a].events.events@[ev].changes@[k].change_type != ChangeType::Reservation,
        classified(feed, ovr) is Ok,
    ensures
        ({
            let e = feed[a].events.events@[ev];
            change_emission(
                e.cause,
                e.changes@[k],
                derived_identifier(feed[a].account_name@),
                stamp(ovr, e),
            ) matches Ok(Some(x)) && x.security == SecurityDefinition::Cash && x.fee == (e.cause
                == Cause::Fee) && holds_emission(classified(feed, ovr)->Ok_0, x)
        }),
{
    let acct = feed[a];
    let e = acct.events.events@[ev];
    let from = derived_identifier(acct.account_name@);
    let n_changes = e.changes@.len() as int;
    let n_events = acct.events.events@.len() as int;
    let n = feed.len() as int;
    let r = change_emission(e.cause, e.changes@[k], from, stamp(ovr, e));
    if r is Err {
        lemma_inconsistent_feed_rejected(feed, ovr, a, ev, k);
    }
    lemma_cash_only_causes(e.cause, e.changes@[k], from, stamp(ovr, e));
    let x = r->Ok_0->Some_0;
    if feed_emissions(feed, ovr, a) is Err {
        lemma_feed_err_sticks(feed, ovr, a, n);
    }
    if account_emissions(acct, ovr, a, n_events) is Err {
        assert(feed_emissions(feed, ovr, a + 1) is Err);
        lemma_feed_err_sticks(feed, ovr, a + 1, n);
    }
    if account_emissions(acct, ovr, a, ev) is Err {
        lemma_account_err_sticks(acct, ovr, a, ev, n_events);
    }
    if event_emissions(e, from, ovr, a, ev, n_changes) is Err {
        assert(account_emissions(acct, ovr, a, ev + 1) is Err);
        lemma_account_err_sticks(acct, ovr, a, ev + 1, n_events);
    }
    lemma_event_contains(e, from, ovr, a, ev, k, n_changes, x);
    lemma_account_contains(acct, ovr, a, ev, n_events, x);
    lemma_feed_contains(feed, ovr, a, n, x);
    lemma_apply_holds(seq![], feed_emissions(feed, ovr, n)->Ok_0, x);
}

/// `e2` is `e` with one reservation inserted among its changes at `k`.
pub open spec fn reservation_inserted(e: Event, e2: Event, k: int) -> bool {
    &&& e2.cause == e.cause
    &&& e2.occurrence == e.occurrence
    &&& 0 <= k <= e.changes@.len()
    &&& e2.changes@.len() == e.changes@.len() + 1
    &&& e2.changes@[k].change_type == ChangeType::Reservation
    &&& forall|i: int| 0 <= i < k ==> #[trigger] e2.changes@[i] == e.changes@[i]
    &&& forall|i: int| k < i < e2.changes@.len() ==> #[trigger] e2.changes@[i] == e.changes@[i - 1]
}

/// `feed2` is `feed` with one reservation inserted into the changes of event
/// `ev` of account `a`.
pub open spec fn feed_reservation_inserted(
    feed: Seq<AccountEvents>,
    feed2: Seq<AccountEvents>,
    a: int,
    ev: int,
    k: int,
) -> bool {
    &&& 0 <= a < feed.len()
    &&& feed2.len() == feed.len()
    &&& forall|i: int| 0 <= i < feed.len() && i != a ==> #[trigger] feed2[i] == feed[i]
    &&& feed2[a].account_name@ == feed[a].account_name@
    &&& 0 <= ev < feed[a].events.events@.len()
    &&& feed2[a].events.events@.len() == feed[a].events.events@.len()
    &&& forall|j: int|
        0 <= j < feed[a].events.events@.len() && j != ev ==> #[trigger] feed2[a].events.events@[j]
            == feed[a].events.events@[j]
    &&& reservation_inserted(feed[a].events.events@[ev], feed2[a].events.events@[ev], k)
}

/// Two classification results that agree on success and on its value, and
/// otherwise both report an inconsistency.
pub open spec fn same_outcome<T>(r1: Result<T, FeedError>, r2: Result<T, FeedError>) -> bool {
    match (r1, r2) {
        (Ok(x), Ok(y)) => x == y,
        (Err(x), Err(y)) => x is InconsistentSecurity && y is InconsistentSecurity,
        _ => false,
    }
}

proof fn lemma_event_insert(
    e: Event,
    e2: Event,
    from: Seq<u8>,
    ovr: Option<u64>,
    a: int,
    ev: int,
    k: int,
    n: int,
)
    requires
        reservation_inserted(e, e2, k),
        0 <= n <= e.changes@.len(),
    ensures
        n <= k ==> event_emissions(e2, from, ovr, a, ev, n) == event_emissions(
            e,
            from,
            ovr,
            a,
            ev,
            n,
        ),
        n >= k ==> (event_emissions(e2, from, ovr, a, ev, n + 1) is Ok <==> event_emissions(
            e,
            from,
            ovr,
            a,
            ev,
            n,
        ) is Ok),
        n >= k && event_emissions(e, from, ovr, a, ev, n) is Ok ==> event_emissions(
            e2,
            from,
            ovr,
            a,
            ev,
            n + 1,
        ) == event_emissions(e, from, ovr, a, ev, n),
    decreases n,
{
    if n > 0 {
        lemma_event_insert(e, e2, from, ovr, a, ev, k, n - 1);
    }
    if n <= k && n > 0 {
        assert(e2.changes@[n - 1] == e.changes@[n - 1]);
    }
    if n == k {
        lemma_reservation_skipped(e2.cause, e2.changes@[k], from, stamp(ovr, e2));
    }
    if n > k {
        assert(e2.changes@[n] == e.changes@[n - 1]);
    }
}

proof fn lemma_account_insert(
    acct: AccountEvents,
    acct2: AccountEvents,
    ovr: Option<u64>,
    a: int,
    ev: int,
    k: int,
    n: int,
)
    requires
        acct2.account_name@ == acct.account_name@,
        0 <= ev < acct.events.events@.len(),
        acct2.events.events@.len() == acct.events.events@.len(),
        forall|j: int|
            0 <= j < acct.events.events@.len() && j != ev ==> #[trigger] acct2.events.events@[j]
                == acct.events.events@[j],
        reservation_inserted(acct.events.events@[ev], acct2.events.events@[ev], k),
        0 <= n <= acct.events.events@.len(),
    ensures
        account_emissions(acct2, ovr, a, n) is Ok <==> account_emissions(acct, ovr, a, n) is Ok,
        account_emissions(acct, ovr, a, n) is Ok ==> account_emissions(acct2, ovr, a, n)
            == account_emissions(acct, ovr, a, n),
    decreases n,
{
    if n > 0 {
        lemma_account_insert(acct, acct2, ovr, a, ev, k, n - 1);
        let e = acct.events.events@[n - 1];
        let from = derived_identifier(acct.account_name@);
        if n - 1 == ev {
            lemma_event_insert(
                e,
                acct2.events.events@[n - 1],
                from,
                ovr,
                a,
                n - 1,
                k,
                e.changes@.len() as int,
            );
        } else {
            assert(acct2.events.events@[n - 1] == e);
        }
    }
}

proof fn lemma_feed_insert(
    feed: Seq<AccountEvents>,
    feed2: Seq<AccountEvents>,
    ovr: Option<u64>,
    a: int,
    ev: int,
    k: int,
    n: int,
)
    requires
        feed_reservation_inserted(feed, feed2, a, ev, k),
        0 <= n <= feed.len(),
    ensures
        feed_emissions(feed2, ovr, n) is Ok <==> feed_emissions(feed, ovr, n) is Ok,
        feed_emissions(feed, ovr, n) is Ok ==> feed_emissions(feed2, ovr, n) == feed_emissions(
            feed,
            ovr,
            n,
        ),
    decreases n,
{
    if n > 0 {
        lemma_feed_insert(feed, feed2, ovr, a, ev, k, n - 1);
        if n - 1 == a {
            lemma_account_insert(
                feed[a],
                feed2[a],
                ovr,
                a,
                ev,
                k,
                feed[a].events.events@.len() as int,
            );
        } else {
            assert(feed2[n - 1] == feed[n - 1]);
        }
    }
}

/// A reservation inserted anywhere in a feed changes nothing: the feed
/// classifies to the same batches as before, or is rejected as inconsistent
/// as before (the position reported may shift past the reservation).
pub proof fn lemma_reservation_feed_neutral(
    feed: Seq<AccountEvents>,
    feed2: Seq<AccountEvents>,
    ovr: Option<u64>,
    a: int,
    ev: int,
    k: int,
)
    requires
        feed_reservation_inserted(feed, feed2, a, ev, k),
    ensures
        same_outcome(classified(feed2, ovr), classified(feed, ovr)),
{
    lemma_feed_insert(feed, feed2, ovr, a, ev, k, feed.len() as int);
    lemma_feed_err_kind(feed, ovr, feed.len() as int);
    lemma_feed_err_kind(feed2, ovr, feed2.len() as int);
}

/// Classifies one change of an event with `cause`, for the account `from`,
/// with the transfer stamped `timestamp`.
pub fn classify_change(cause: Cause, change: &Change, from: &Identifier, timestamp: u64) -> (r:
    Result<Option<Emission>, ErrorKind>)
    ensures
        match (r, change_emission(cause, *change, from@, timestamp)) {
            (Ok(None), Ok(None)) => true,
            (Ok(Some(x)), Ok(Some(v))) => x@ == v,
            (Err(x), Err(y)) => x == y,
            _ => false,
        },
{
    if change.change_type == ChangeType::Reservation {
        return Ok(None);
    }
    let cashlike = change.security == SecurityDefinition::Cash || change.security
        == SecurityDefinition::Unspecified;
    let key = match change.change_type {
        ChangeType::Cash => {
            if !cashlike {
                return Err(ErrorKind::InconsistentSecurity);
            }
            SecurityDefinition::Cash
        },
        _ => {
            if cashlike {
                return Err(ErrorKind::InconsistentSecurity);
            }
            change.security
        },
    };
    let amount = change.size.magnitude;
    let withdrawal = match cause {
        Cause::Rebalance => change.size.negative,
        _ => {
            if key != SecurityDefinition::Cash {
                return Err(ErrorKind::InconsistentSecurity);
            }
            match cause {
                Cause::Deposit => false,
                _ => true,
            }
        },
    };
    let fee = match cause {
        Cause::Fee => true,
        _ => false,
    };
    if withdrawal {
        let transfer = Transfer::new(Side::Withdrawal { from: *from }, amount, timestamp);
        Ok(Some(Emission { security: key, fee, transfer }))
    } else {
        let name = change.security.name();
        let to = public_key(name.as_slice());
        let transfer = Transfer::new(Side::Deposit { to }, amount, timestamp);
        Ok(Some(Emission { security: key, fee, transfer }))
    }
}

fn classify_event(
    map: &mut TransferMap,
    event: &Event,
    from: &Identifier,
    ts_override: Option<u64>,
    a: usize,
    ev: usize,
) -> (r: Result<(), FeedError>)
    requires
        old(map).wf(),
    ensures
        final(map).wf(),
        match event_emissions(*event, from@, ts_override, a as int, ev as int, event.changes@.len() as int) {
            Ok(es) => r is Ok && final(map)@ == apply_emissions(old(map)@, es),
            Err(x) => r == Err::<(), FeedError>(x),
        },
{
    let timestamp = match ts_override {
        Some(t) => t,
        None => event.occurrence,
    };
    let ghost m0 = map@;
    let ghost mut es: Seq<EmissionView> = seq![];
    let mut k: usize = 0;
    while k < event.changes.len()
        invariant
            map.wf(),
            m0 == old(map)@,
            0 <= k <= event.changes@.len(),
            timestamp == stamp(ts_override, *event),
            event_emissions(*event, from@, ts_override, a as int, ev as int, k as int) == Ok::<
                Seq<EmissionView>,
                FeedError,
            >(es),
            map@ == apply_emissions(m0, es),
        decreases event.changes@.len() - k,
    {
        match classify_change(event.cause, &event.changes[k], from, timestamp) {
            Err(_) => {
                let err = FeedError::InconsistentSecurity { account: a, event: ev, change: k };
                proof {
                    lemma_event_err_sticks(
                        *event,
                        from@,
                        ts_override,
                        a as int,
                        ev as int,
                        k + 1,
                        event.changes@.len() as int,
                    );
                }
                return Err(err);
            },
            Ok(None) => {},
            Ok(Some(x)) => {
                if x.fee {
                    map.insert_fee(x.security, x.transfer);
                } else {
                    map.insert_tx(x.security, x.transfer);
                }
                proof {
                    assert(es.push(x@).drop_last() =~= es);
                    es = es.push(x@);
                }
            },
        }
        k = k + 1;
    }
    Ok(())
}

fn classify_account(
    map: &mut TransferMap,
    account: &AccountEvents,
    ts_override: Option<u64>,
    a: usize,
) -> (r: Result<(), FeedError>)
    requires
        old(map).wf(),
    ensures
        final(map).wf(),
        match account_emissions(*account, ts_override, a as int, account.events.events@.len() as int) {
            Ok(es) => r is Ok && final(map)@ == apply_emissions(old(map)@, es),
            Err(x) => r == Err::<(), FeedError>(x),
        },
{
    let from = public_key(account.account_name.as_slice());
    let ghost m0 = map@;
    let ghost mut es: Seq<EmissionView> = seq![];
    let mut k: usize = 0;
    while k < account.events.events.len()
        invariant
            map.wf(),
            m0 == old(map)@,
            0 <= k <= account.events.events@.len(),
            from@ == derived_identifier(account.account_name@),
            account_emissions(*account, ts_override, a as int, k as int) == Ok::<
                Seq<EmissionView>,
                FeedError,
            >(es),
            map@ == apply_emissions(m0, es),
        decreases account.events.events@.len() - k,
    {
        let ghost before = map@;
        let event = &account.events.events[k];
        match classify_event(map, event, &from, ts_override, a, k) {
            Err(x) => {
                proof {
                    lemma_account_err_sticks(
                        *account,
                        ts_override,
                        a as int,
                        k + 1,
                        account.events.events@.len() as int,
                    );
                }
                return Err(x);
            },
            Ok(()) => {
                proof {
                    let more = event_emissions(
                        *event,
                        from@,
                        ts_override,
                        a as int,
                        k as int,
                        event.changes@.len() as int,
                    )->Ok_0;
                    lemma_apply_concat(m0, es, more);
                    es = es + more;
                }
            },
        }
        k = k + 1;
    }
    Ok(())
}

/// Classifies a whole feed in one pass into per-security batches, stamping
/// every transfer with `ts_override` where it is given. The result is a
/// function of the feed and the override alone; the first inconsistent
/// change (in feed order) rejects the whole feed.
pub fn classify(feed: &Vec<AccountEvents>, ts_override: Option<u64>) -> (r: Result<
    TransferMap,
    FeedError,
>)
    ensures
        match r {
            Ok(m) => m.wf() && classified(feed@, ts_override) == Ok::<Seq<BatchView>, FeedError>(
                m@,
            ),
            Err(x) => classified(feed@, ts_override) == Err::<Seq<BatchView>, FeedError>(x),
        },
{
    let mut map = TransferMap::new();
    let ghost mut es: Seq<EmissionView> = seq![];
    let mut k: usize = 0;
    while k < feed.len()
        invariant
            map.wf(),
            0 <= k <= feed@.len(),
            feed_emissions(feed@, ts_override, k as int) == Ok::<Seq<EmissionView>, FeedError>(es),
            map@ == apply_emissions(seq![], es),
        decreases feed@.len() - k,
    {
        match classify_account(&mut map, &feed[k], ts_override, k) {
            Err(x) => {
                proof {
                    lemma_feed_err_sticks(feed@, ts_override, k + 1, feed@.len() as int);
                }
                return Err(x);
            },
            Ok(()) => {
                proof {
                    let more = account_emissions(
                        feed@[k as int],
                        ts_override,
                        k as int,
                        feed@[k as int].events.events@.len() as int,
                    )->Ok_0;
                    lemma_apply_concat(seq![], es, more);
                    es = es + more;
                }
            },
        }
        k = k + 1;
    }
    Ok(map)
}

} // verus!
