//! Per-security aggregation of transfers and fees.
//!
//! Each security that any emission names gets one batch, created on first
//! reference; within a batch, transfers and fees keep their arrival order,
//! which the batch commitment depends on.

use vstd::prelude::*;

use crate::events::SecurityDefinition;
use crate::transfer::{Transfer, TransferView};

verus! {

/// The transfers and the fees collected for one security.
#[derive(Debug, Clone, PartialEq, Eq)]
pub struct SecurityBatch {
    pub security: SecurityDefinition,
    pub transfers: Vec<Transfer>,
    pub fees: Vec<Transfer>,
}

pub struct BatchView {
    pub security: SecurityDefinition,
    pub transfers: Seq<TransferView>,
    pub fees: Seq<TransferView>,
}

pub open spec fn views_of(ts: Seq<Transfer>) -> Seq<TransferView> {
    ts.map_values(|t: Transfer| t@)
}

impl View for SecurityBatch {
    type V = BatchView;

    open spec fn view(&self) -> BatchView {
        BatchView {
            security: self.security,
            transfers: views_of(self.transfers@),
            fees: views_of(self.fees@),
        }
    }
}

pub open spec fn batch_views(bs: Seq<SecurityBatch>) -> Seq<BatchView> {
    bs.map_values(|b: SecurityBatch| b@)
}

/// No security has two batches.
pub open spec fn keys_unique(m: Seq<BatchView>) -> bool {
    forall|i: int, j: int|
        0 <= i < m.len() && 0 <= j < m.len() && i != j ==> #[trigger] m[i].security
            != #[trigger] m[j].security
}

/// The position of the batch of `s`, or `-1` where there is none.
pub open spec fn slot(m: Seq<BatchView>, s: SecurityDefinition) -> int
    decreases m.len(),
{
    if m.len() == 0 {
        -1
    } else if m.last().security == s {
        m.len() - 1
    } else {
        slot(m.drop_last(), s)
    }
}

/// The batches after one emission for `s`: appended to the transfers, or to
/// the fees, of the batch of `s`, which is created empty where it is missing.
pub open spec fn with_emission(
    m: Seq<BatchView>,
    s: SecurityDefinition,
    fee: bool,
    t: TransferView,
) -> Seq<BatchView> {
    let k = slot(m, s);
    if k >= 0 {
        if fee {
            m.update(k, BatchView { fees: m[k].fees.push(t), ..m[k] })
        } else {
            m.update(k, BatchView { transfers: m[k].transfers.push(t), ..m[k] })
        }
    } else if fee {
        m.push(BatchView { security: s, transfers: seq![], fees: seq![t] })
    } else {
        m.push(BatchView { security: s, transfers: seq![t], fees: seq![] })
    }
}

proof fn lemma_slot(m: Seq<BatchView>, s: SecurityDefinition)
    requires
        keys_unique(m),
    ensures
        slot(m, s) == -1 <==> forall|i: int| 0 <= i < m.len() ==> m[i].security != s,
        forall|i: int| #![trigger m[i]] 0 <= i < m.len() && m[i].security == s ==> slot(m, s) == i,
    decreases m.len(),
{
    if m.len() > 0 {
        let p = m.drop_last();
        assert(keys_unique(p)) by {
            assert forall|i: int, j: int|
                0 <= i < p.len() && 0 <= j < p.len() && i != j implies #[trigger] p[i].security
                != #[trigger] p[j].security by {
                assert(p[i] == m[i] && p[j] == m[j]);
            }
        }
        lemma_slot(p, s);
        assert forall|i: int| 0 <= i < p.len() implies p[i] == m[i] by {}
    }
}

/// Batches per security, each security at most once, in order of first
/// reference.
#[derive(Debug)]
pub struct TransferMap {
    batches: Vec<SecurityBatch>,
}

impl View for TransferMap {
    type V = Seq<BatchView>;

    closed spec fn view(&self) -> Seq<BatchView> {
        batch_views(self.batches@)
    }
}

impl TransferMap {
    pub open spec fn wf(&self) -> bool {
        keys_unique(self@)
    }

    pub fn new() -> (r: TransferMap)
        ensures
            r@ == Seq::<BatchView>::empty(),
            r.wf(),
    {
        let r = TransferMap { batches: Vec::new() };
        assert(r@ =~= Seq::<BatchView>::empty());
        r
    }

    pub fn len(&self) -> (r: usize)
        ensures
            r == self@.len(),
    {
        self.batches.len()
    }

    fn insert(&mut self, security: SecurityDefinition, tx: Transfer, fee: bool)
        requires
            old(self).wf(),
        ensures
            final(self).wf(),
            final(self)@ == with_emission(old(self)@, security, fee, tx@),
    {
        let ghost m = self@;
        let mut i: usize = 0;
        while i < self.batches.len()
            invariant
                self@ == m,
                m == old(self)@,
                keys_unique(m),
                0 <= i <= m.len(),
                forall|j: int| 0 <= j < i ==> m[j].security != security,
            decreases m.len() - i,
        {
            if self.batches[i].security == security {
                assert(m[i as int] == self.batches@[i as int]@);
                proof {
                    lemma_slot(m, security);
                }
                if fee {
                    self.batches[i].fees.push(tx);
                    assert(views_of(self.batches@[i as int].fees@) =~= m[i as int].fees.push(tx@));
                } else {
                    self.batches[i].transfers.push(tx);
                    assert(views_of(self.batches@[i as int].transfers@) =~= m[i as int].transfers.push(
                        tx@,
                    ));
                }
                assert(self@ =~= with_emission(m, security, fee, tx@));
                assert(keys_unique(self@)) by {
                    assert forall|a: int| 0 <= a < m.len() implies #[trigger] self@[a].security
                        == m[a].security by {}
                }
                return;
            }
            i = i + 1;
        }
        let batch = if fee {
            SecurityBatch { security, transfers: Vec::new(), fees: vec![tx] }
        } else {
            SecurityBatch { security, transfers: vec![tx], fees: Vec::new() }
        };
        proof {
            lemma_slot(m, security);
        }
        self.batches.push(batch);
        assert(self@ =~= with_emission(m, security, fee, tx@)) by {
            assert(views_of(batch.fees@) =~= (if fee { seq![tx@] } else { seq![] }));
            assert(views_of(batch.transfers@) =~= (if fee { seq![] } else { seq![tx@] }));
        }
        assert(keys_unique(self@)) by {
            assert forall|a: int| 0 <= a < m.len() implies #[trigger] self@[a].security
                == m[a].security by {}
        }
    }

    /// Appends a transfer to the batch of `security`.
    pub fn insert_tx(&mut self, security: SecurityDefinition, tx: Transfer)
        requires
            old(self).wf(),
        ensures
            final(self).wf(),
            final(self)@ == with_emission(old(self)@, security, false, tx@),
    {
        self.insert(security, tx, false)
    }

    /// Appends a fee to the batch of `security`.
    pub fn insert_fee(&mut self, security: SecurityDefinition, tx: Transfer)
        requires
            old(self).wf(),
        ensures
            final(self).wf(),
            final(self)@ == with_emission(old(self)@, security, true, tx@),
    {
        self.insert(security, tx, true)
    }

    /// Hands out the batches, in order of first reference.
    pub fn into_transfers(self) -> (r: Vec<SecurityBatch>)
        ensures
            batch_views(r@) == self@,
    {
        self.batches
    }
}

} // verus!
