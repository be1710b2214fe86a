//! The event model of the feed: accounts, events, changes and the closed
//! set of securities.

use vstd::prelude::*;

use crate::error::FeedError;
use crate::transfer::Quantity;

verus! {

/// Why an event happened; it governs how its changes are classified.
#[derive(Debug, Clone, Copy, PartialEq, Eq, Structural)]
pub enum Cause {
    Deposit,
    Withdrawal,
    Rebalance,
    Fee,
}

/// What a change moves: cash, a security, or an administrative reservation.
#[derive(Debug, Clone, Copy, PartialEq, Eq, Structural)]
pub enum ChangeType {
    Cash,
    Security,
    Reservation,
}

/// The closed set of securities. Each settleable variant maps to a distinct
/// settlement destination through its numeric code; `Unspecified` stands for "no
/// security given" (written "None" in a feed) and is only meaningful on cash changes.
#[derive(Debug, Clone, Copy, PartialEq, Eq, Hash, Structural)]
pub enum SecurityDefinition {
    Cash,
    Tswe,
    Tret,
    Tgbt,
    Tcbt,
    Unspecified,
}

/// The numeric code of a security, which selects its settlement contract.
pub open spec fn security_code(s: SecurityDefinition) -> u64 {
    match s {
        SecurityDefinition::Cash => 0x1000,
        SecurityDefinition::Tswe => 0x1001,
        SecurityDefinition::Tret => 0x1002,
        SecurityDefinition::Tgbt => 0x1003,
        SecurityDefinition::Tcbt => 0x1004,
        SecurityDefinition::Unspecified => 0x0000,
    }
}

/// The canonical name of a security, as ASCII bytes.
pub open spec fn security_name(s: SecurityDefinition) -> Seq<u8> {
    match s {
        SecurityDefinition::Cash => seq![67, 97, 115, 104],  // "Cash"
        SecurityDefinition::Tswe => seq![84, 83, 87, 69],  // "TSWE"
        SecurityDefinition::Tret => seq![84, 82, 69, 84],  // "TRET"
        SecurityDefinition::Tgbt => seq![84, 71, 66, 84],  // "TGBT"
        SecurityDefinition::Tcbt => seq![84, 67, 66, 84],  // "TCBT"
        SecurityDefinition::Unspecified => seq![78, 111, 110, 101],  // "None"
    }
}

/// The 32-byte contract identifier of a security: zeros, then the code as a
/// big-endian `u64` in the last eight bytes.
pub open spec fn contract_id_of(s: SecurityDefinition) -> Seq<u8> {
    Seq::new(32, |i: int| if i < 24 { 0u8 } else {
        ((security_code(s) >> ((8 * (31 - i)) as u64)) & 0xff) as u8
    })
}

impl SecurityDefinition {
    pub fn code(&self) -> (r: u64)
        ensures
            r == security_code(*self),
    {
        match self {
            SecurityDefinition::Cash => 0x1000,
            SecurityDefinition::Tswe => 0x1001,
            SecurityDefinition::Tret => 0x1002,
            SecurityDefinition::Tgbt => 0x1003,
            SecurityDefinition::Tcbt => 0x1004,
            SecurityDefinition::Unspecified => 0x0000,
        }
    }

    pub fn name(&self) -> (r: Vec<u8>)
        ensures
            r@ == security_name(*self),
    {
        let r = match self {
            SecurityDefinition::Cash => vec![67u8, 97, 115, 104],  // "Cash"
            SecurityDefinition::Tswe => vec![84u8, 83, 87, 69],  // "TSWE"
            SecurityDefinition::Tret => vec![84u8, 82, 69, 84],  // "TRET"
            SecurityDefinition::Tgbt => vec![84u8, 71, 66, 84],  // "TGBT"
            SecurityDefinition::Tcbt => vec![84u8, 67, 66, 84],  // "TCBT"
            SecurityDefinition::Unspecified => vec![78u8, 111, 110, 101],  // "None"
        };
        assert(r@ =~= security_name(*self));
        r
    }

    /// The contract identifier that batches of this security settle on.
    pub fn to_id(self) -> (r: [u8; 32])
        ensures
            r@ == contract_id_of(self),
    {
        let code = self.code();
        let mut data = [0u8; 32];
        let mut i: usize = 24;
        while i < 32
            invariant
                24 <= i <= 32,
                code == security_code(self),
                forall|j: int| 0 <= j < i ==> data@[j] == contract_id_of(self)[j],
                forall|j: int| i <= j < 32 ==> data@[j] == 0u8,
            decreases 32 - i,
        {
            data[i] = ((code >> ((8 * (31 - i)) as u64)) & 0xff) as u8;
            i = i + 1;
        }
        assert(data@ =~= contract_id_of(self));
        data
    }
}


pub open spec fn cause_name(c: Cause) -> Seq<u8> {
    match c {
        Cause::Deposit => seq![68, 101, 112, 111, 115, 105, 116],  // "Deposit"
        Cause::Withdrawal => seq![87, 105, 116, 104, 100, 114, 97, 119, 97, 108],  // "Withdrawal"
        Cause::Rebalance => seq![82, 101, 98, 97, 108, 97, 110, 99, 101],  // "Rebalance"
        Cause::Fee => seq![70, 101, 101],  // "Fee"
    }
}

pub open spec fn change_type_name(t: ChangeType) -> Seq<u8> {
    match t {
        ChangeType::Cash => seq![67, 97, 115, 104],  // "Cash"
        ChangeType::Security => seq![83, 101, 99, 117, 114, 105, 116, 121],  // "Security"
        ChangeType::Reservation => seq![82, 101, 115, 101, 114, 118, 97, 116, 105, 111, 110],  // "Reservation"
    }
}

/// Whether two byte strings are equal.
fn same_bytes(a: &[u8], b: &[u8]) -> (r: bool)
    ensures
        r == (a@ == b@),
{
    if a.len() != b.len() {
        return false;
    }
    let mut i: usize = 0;
    while i < a.len()
        invariant
            a@.len() == b@.len(),
            0 <= i <= a@.len(),
            forall|j: int| 0 <= j < i ==> a@[j] == b@[j],
        decreases a@.len() - i,
    {
        if a[i] != b[i] {
            return false;
        }
        i = i + 1;
    }
    assert(a@ =~= b@);
    true
}

impl Cause {
    pub fn name(&self) -> (r: Vec<u8>)
        ensures
            r@ == cause_name(*self),
    {
        let r = match self {
            Cause::Deposit => vec![68u8, 101, 112, 111, 115, 105, 116],
            Cause::Withdrawal => vec![87u8, 105, 116, 104, 100, 114, 97, 119, 97, 108],
            Cause::Rebalance => vec![82u8, 101, 98, 97, 108, 97, 110, 99, 101],
            Cause::Fee => vec![70u8, 101, 101],
        };
        assert(r@ =~= cause_name(*self));
        r
    }

    /// The cause a feed writes with this name, if any.
    pub fn from_name(name: &[u8]) -> (r: Option<Cause>)
        ensures
            r matches Some(c) ==> cause_name(c) == name@,
            r is None ==> forall|c: Cause| cause_name(c) != name@,
    {
        let all = [Cause::Deposit, Cause::Withdrawal, Cause::Rebalance, Cause::Fee];
        let mut i: usize = 0;
        while i < 4
            invariant
                0 <= i <= 4,
                all@ == seq![Cause::Deposit, Cause::Withdrawal, Cause::Rebalance, Cause::Fee],
                forall|j: int| 0 <= j < i ==> cause_name(#[trigger] all@[j]) != name@,
            decreases 4 - i,
        {
            let c = all[i];
            if same_bytes(c.name().as_slice(), name) {
                return Some(c);
            }
            i = i + 1;
        }
        assert forall|c: Cause| cause_name(c) != name@ by {
            match c {
                Cause::Deposit => assert(all@[0] == c),
                Cause::Withdrawal => assert(all@[1] == c),
                Cause::Rebalance => assert(all@[2] == c),
                Cause::Fee => assert(all@[3] == c),
            }
        }
        None
    }
}

impl ChangeType {
    pub fn name(&self) -> (r: Vec<u8>)
        ensures
            r@ == change_type_name(*self),
    {
        let r = match self {
            ChangeType::Cash => vec![67u8, 97, 115, 104],
            ChangeType::Security => vec![83u8, 101, 99, 117, 114, 105, 116, 121],
            ChangeType::Reservation => vec![82u8, 101, 115, 101, 114, 118, 97, 116, 105, 111, 110],
        };
        assert(r@ =~= change_type_name(*self));
        r
    }

    /// The change type a feed writes with this name, if any.
    pub fn from_name(name: &[u8]) -> (r: Option<ChangeType>)
        ensures
            r matches Some(t) ==> change_type_name(t) == name@,
            r is None ==> forall|t: ChangeType| change_type_name(t) != name@,
    {
        let all = [ChangeType::Cash, ChangeType::Security, ChangeType::Reservation];
        let mut i: usize = 0;
        while i < 3
            invariant
                0 <= i <= 3,
                all@ == seq![ChangeType::Cash, ChangeType::Security, ChangeType::Reservation],
                forall|j: int| 0 <= j < i ==> change_type_name(#[trigger] all@[j]) != name@,
            decreases 3 - i,
        {
            let t = all[i];
            if same_bytes(t.name().as_slice(), name) {
                return Some(t);
            }
            i = i + 1;
        }
        assert forall|t: ChangeType| change_type_name(t) != name@ by {
            match t {
                ChangeType::Cash => assert(all@[0] == t),
                ChangeType::Security => assert(all@[1] == t),
                ChangeType::Reservation => assert(all@[2] == t),
            }
        }
        None
    }
}

impl SecurityDefinition {
    /// The security a feed writes with this name, if any.
    pub fn from_name(name: &[u8]) -> (r: Option<SecurityDefinition>)
        ensures
            r matches Some(s) ==> security_name(s) == name@,
            r is None ==> forall|s: SecurityDefinition| security_name(s) != name@,
    {
        let all = [
            SecurityDefinition::Cash,
            SecurityDefinition::Tswe,
            SecurityDefinition::Tret,
            SecurityDefinition::Tgbt,
            SecurityDefinition::Tcbt,
            SecurityDefinition::Unspecified,
        ];
        let mut i: usize = 0;
        while i < 6
            invariant
                0 <= i <= 6,
                all@ == seq![
                    SecurityDefinition::Cash,
                    SecurityDefinition::Tswe,
                    SecurityDefinition::Tret,
                    SecurityDefinition::Tgbt,
                    SecurityDefinition::Tcbt,
                    SecurityDefinition::Unspecified,
                ],
                forall|j: int| 0 <= j < i ==> security_name(#[trigger] all@[j]) != name@,
            decreases 6 - i,
        {
            let s = all[i];
            if same_bytes(s.name().as_slice(), name) {
                return Some(s);
            }
            i = i + 1;
        }
        assert forall|s: SecurityDefinition| security_name(s) != name@ by {
            match s {
                SecurityDefinition::Cash => assert(all@[0] == s),
                SecurityDefinition::Tswe => assert(all@[1] == s),
                SecurityDefinition::Tret => assert(all@[2] == s),
                SecurityDefinition::Tgbt => assert(all@[3] == s),
                SecurityDefinition::Tcbt => assert(all@[4] == s),
                SecurityDefinition::Unspecified => assert(all@[5] == s),
            }
        }
        None
    }
}

/// One movement inside an event.
#[derive(Debug, Clone, Copy, PartialEq, Eq)]
pub struct Change {
    pub change_type: ChangeType,
    pub security: SecurityDefinition,
    pub size: Quantity,
    pub price: Quantity,
}

impl Change {
    /// Builds a change from the names a feed writes for its type and security.
    pub fn decode(change_type: &[u8], security: &[u8], size: Quantity, price: Quantity) -> (r:
        Result<Change, FeedError>)
        ensures
            r matches Ok(c) ==> change_type_name(c.change_type) == change_type@
                && security_name(c.security) == security@ && c.size == size && c.price == price,
            r is Err ==> r == Err::<Change, FeedError>(FeedError::MalformedFeed) && (
            (forall|t: ChangeType| change_type_name(t) != change_type@) || (forall|
                s: SecurityDefinition,
            | security_name(s) != security@)),
    {
        match (ChangeType::from_name(change_type), SecurityDefinition::from_name(security)) {
            (Some(change_type), Some(security)) => Ok(Change { change_type, security, size, price }),
            _ => Err(FeedError::MalformedFeed),
        }
    }
}

/// One event of an account: its cause, when it happened, and its changes.
#[derive(Debug, Clone, PartialEq, Eq)]
pub struct Event {
    pub cause: Cause,
    pub changes: Vec<Change>,
    pub occurrence: u64,
}

/// The events of one account, in feed order.
#[derive(Debug, Clone, PartialEq, Eq)]
pub struct Events {
    pub events: Vec<Event>,
}

/// One account of the feed: its name, as opaque bytes, and its events.
#[derive(Debug, Clone, PartialEq, Eq)]
pub struct AccountEvents {
    pub account_name: Vec<u8>,
    pub events: Events,
}

/// Whole seconds since the Unix epoch that a date text denotes, if it is one.
pub uninterp spec fn unix_seconds_of(text: Seq<char>) -> Option<i64>;

/// Relies on chrono's `FromStr` for `DateTime<Utc>` (RFC 3339 text with any
/// offset) and `DateTime::timestamp`: whole seconds since the Unix epoch, or
/// nothing where the text does not parse.
#[verifier::external_body]
fn parse_unix_seconds(text: &str) -> (r: Option<i64>)
    ensures
        r == unix_seconds_of(text@),
{
    match text.parse::<chrono::DateTime<chrono::Utc>>() {
        Ok(date) => Some(date.timestamp()),
        Err(_) => None,
    }
}

/// The offset of the Unix epoch in TAI64 labels: `2^62 + 10`.
pub const TAI64_UNIX_EPOCH: u64 = 0x4000_0000_0000_000a;

/// Relies on `tai64::Tai64::from_unix`: the TAI64 label of a Unix time is
/// `secs + 2^62 + 10`; the bounds keep that sum inside `i64` and non-negative.
#[verifier::external_body]
fn tai64_label(secs: i64) -> (r: u64)
    requires
        -0x4000_0000_0000_000a <= secs <= 0x3fff_ffff_ffff_fff5,
    ensures
        r == secs + 0x4000_0000_0000_000a,
{
    tai64::Tai64::from_unix(secs).0
}

/// The occurrence (a TAI64 label) of a Unix time, where one exists.
pub open spec fn occurrence_of_seconds(secs: int) -> Option<u64> {
    if -(TAI64_UNIX_EPOCH as int) <= secs <= i64::MAX - TAI64_UNIX_EPOCH {
        Some((secs + TAI64_UNIX_EPOCH) as u64)
    } else {
        None
    }
}

/// The occurrence of a Unix time in seconds.
pub fn occurrence_from_unix(secs: i64) -> (r: Option<u64>)
    ensures
        r == occurrence_of_seconds(secs as int),
{
    if -0x4000_0000_0000_000a <= secs && secs <= 0x3fff_ffff_ffff_fff5 {
        Some(tai64_label(secs))
    } else {
        None
    }
}

/// The occurrence of an ISO-8601 date text, or nothing where it is no date
/// or lies outside the range of labels.
pub fn occurrence_from_iso8601(text: &str) -> (r: Option<u64>)
    ensures
        r == match unix_seconds_of(text@) {
            Some(secs) => occurrence_of_seconds(secs as int),
            None => None,
        },
{
    match parse_unix_seconds(text) {
        Some(secs) => occurrence_from_unix(secs),
        None => None,
    }
}

impl Event {
    /// Builds an event from the names and date text a feed writes.
    pub fn decode(cause: &[u8], occurrence: &str, changes: Vec<Change>) -> (r: Result<
        Event,
        FeedError,
    >)
        ensures
            r matches Ok(e) ==> cause_name(e.cause) == cause@ && e.changes@ == changes@ && Some(
                e.occurrence,
            ) == match unix_seconds_of(occurrence@) {
                Some(secs) => occurrence_of_seconds(secs as int),
                None => None,
            },
            r is Err ==> r == Err::<Event, FeedError>(FeedError::MalformedFeed) && (
            (forall|c: Cause| cause_name(c) != cause@) || match unix_seconds_of(occurrence@) {
                Some(secs) => occurrence_of_seconds(secs as int) is None,
                None => true,
            }),
    {
        match (Cause::from_name(cause), occurrence_from_iso8601(occurrence)) {
            (Some(cause), Some(occurrence)) => Ok(Event { cause, changes, occurrence }),
            _ => Err(FeedError::MalformedFeed),
        }
    }
}

} // verus!
