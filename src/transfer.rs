//! Ledger transfers and fixed-point money.

use vstd::prelude::*;

use crate::identity::Identifier;

verus! {

/// The direction of a transfer, with its one counter-party: a deposit names
/// the receiver, a withdrawal names the payer. Exactly one side is ever set.
#[derive(Debug, Clone, Copy, PartialEq, Eq)]
pub enum Side {
    Deposit { to: Identifier },
    Withdrawal { from: Identifier },
}

/// A ledger transfer with a fixed-point amount and a timestamp.
#[derive(Debug, Clone, Copy, PartialEq, Eq)]
pub struct Transfer {
    pub side: Side,
    pub amount: u64,
    pub timestamp: u64,
}

/// The mathematical value of a transfer: its direction, the counter-party's
/// identifier bytes, the amount and the timestamp.
pub struct TransferView {
    pub deposit: bool,
    pub party: Seq<u8>,
    pub amount: u64,
    pub timestamp: u64,
}

impl View for Transfer {
    type V = TransferView;

    open spec fn view(&self) -> TransferView {
        match self.side {
            Side::Deposit { to } => TransferView {
                deposit: true,
                party: to@,
                amount: self.amount,
                timestamp: self.timestamp,
            },
            Side::Withdrawal { from } => TransferView {
                deposit: false,
                party: from@,
                amount: self.amount,
                timestamp: self.timestamp,
            },
        }
    }
}

impl Transfer {
    pub open spec fn from_spec(&self) -> Option<Identifier> {
        match self.side {
            Side::Withdrawal { from } => Some(from),
            Side::Deposit { .. } => None,
        }
    }

    pub open spec fn to_spec(&self) -> Option<Identifier> {
        match self.side {
            Side::Deposit { to } => Some(to),
            Side::Withdrawal { .. } => None,
        }
    }

    pub fn new(side: Side, amount: u64, timestamp: u64) -> (r: Transfer)
        ensures
            r == (Transfer { side, amount, timestamp }),
    {
        Transfer { side, amount, timestamp }
    }

    /// Sets the amount, returning the updated transfer.
    pub fn amount(&mut self, amount: u64) -> (r: Transfer)
        ensures
            *final(self) == (Transfer { amount, ..*old(self) }),
            r == *final(self),
    {
        self.amount = amount;
        *self
    }

    /// Turns the transfer into a withdrawal from `from`.
    pub fn withdraw(&mut self, from: Identifier) -> (r: Transfer)
        ensures
            *final(self) == (Transfer { side: Side::Withdrawal { from }, ..*old(self) }),
            r == *final(self),
    {
        self.side = Side::Withdrawal { from };
        *self
    }

    /// Turns the transfer into a deposit to `to`.
    pub fn deposit(&mut self, to: Identifier) -> (r: Transfer)
        ensures
            *final(self) == (Transfer { side: Side::Deposit { to }, ..*old(self) }),
            r == *final(self),
    {
        self.side = Side::Deposit { to };
        *self
    }

    /// The payer, set exactly on withdrawals.
    pub fn from_key(&self) -> (r: Option<Identifier>)
        ensures
            r == self.from_spec(),
    {
        match self.side {
            Side::Withdrawal { from } => Some(from),
            Side::Deposit { .. } => None,
        }
    }

    /// The receiver, set exactly on deposits.
    pub fn to_key(&self) -> (r: Option<Identifier>)
        ensures
            r == self.to_spec(),
    {
        match self.side {
            Side::Deposit { to } => Some(to),
            Side::Withdrawal { .. } => None,
        }
    }
}

/// Every transfer has exactly one of its payer and its receiver.
pub proof fn lemma_exactly_one_party(t: Transfer)
    ensures
        t.from_spec() is Some != t.to_spec() is Some,
        t@.deposit <==> t.to_spec() is Some,
{
}

/// How a decimal magnitude is scaled into a fixed-point integer.
#[derive(Debug, Clone, Copy, PartialEq, Eq, Structural)]
pub enum FixedPointPolicy {
    /// Millionths of a unit, comparable across prices and sizes.
    Micro,
    /// Fractions of `2^32 - 1`, the full range of a 32-bit settlement field.
    FullU32,
}

pub open spec fn policy_scale(p: FixedPointPolicy) -> u64 {
    match p {
        FixedPointPolicy::Micro => 1_000_000,
        FixedPointPolicy::FullU32 => 4_294_967_295,
    }
}

impl FixedPointPolicy {
    /// The factor a magnitude is multiplied by before truncation.
    pub fn scale(&self) -> (r: u64)
        ensures
            r == policy_scale(*self),
    {
        match self {
            FixedPointPolicy::Micro => 1_000_000,
            FixedPointPolicy::FullU32 => 4_294_967_295,
        }
    }
}

/// A signed quantity in fixed point: its sign, and its magnitude already
/// scaled and truncated under the feed's policy.
#[derive(Debug, Clone, Copy, PartialEq, Eq, Structural)]
pub struct Quantity {
    pub negative: bool,
    pub magnitude: u64,
}

impl Quantity {
    pub fn new(negative: bool, magnitude: u64) -> (r: Quantity)
        ensures
            r == (Quantity { negative, magnitude }),
    {
        Quantity { negative, magnitude }
    }
}

} // verus!
