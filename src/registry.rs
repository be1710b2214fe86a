//! Whitelist and activity records, and the calls that carry them.
//!
//! Addresses are written in base58 and must decode to a public key. A call
//! is laid out as the caller's key, the signature key, an operation byte,
//! the record count (eight little-endian bytes) and the records' bytes.

use vstd::prelude::*;

use dusk_bytes::Serializable;

use crate::address::zero_bytes;
use crate::commitment::{le8, lemma_u64_of_le8, push_le8, u64_of_le};
use crate::identity::Identifier;

verus! {

/// The bytes that base58 text (bitcoin alphabet) decodes to, or nothing
/// where the text holds a character outside the alphabet.
pub uninterp spec fn base58_decoded(text: Seq<u8>) -> Option<Seq<u8>>;

/// The canonical encoding of the public key that 32 bytes decode to, or
/// nothing where they encode no point of the curve.
pub uninterp spec fn public_key_decoded(bytes: Seq<u8>) -> Option<Seq<u8>>;

/// Relies on `bs58::decode(..).into(..)` with a zeroed 32-byte buffer: on
/// success the decoded bytes fill the front of the buffer and the rest
/// stays zero; it fails on a character outside the alphabet, or when more
/// than 32 bytes come out.
#[verifier::external_body]
fn decode_base58_32(text: &[u8]) -> (r: Option<[u8; 32]>)
    ensures
        match base58_decoded(text@) {
            Some(d) => if d.len() <= 32 {
                r matches Some(b) && b@ == d + zero_bytes((32 - d.len()) as nat)
            } else {
                r is None
            },
            None => r is None,
        },
{
    let mut buffer = [0u8; 32];
    match bs58::decode(text).into(&mut buffer) {
        Ok(_) => Some(buffer),
        Err(_) => None,
    }
}

/// Relies on `dusk_pki::PublicKey::from_bytes` and `to_bytes`: the key that
/// 32 bytes decode to, encoded again, or nothing where they are no key.
#[verifier::external_body]
fn decode_public_key(bytes: &[u8; 32]) -> (r: Option<[u8; 32]>)
    ensures
        match r {
            Some(b) => public_key_decoded(bytes@) == Some(b@),
            None => public_key_decoded(bytes@) is None,
        },
{
    match dusk_pki::PublicKey::from_bytes(bytes) {
        Ok(key) => Some(key.to_bytes()),
        Err(_) => None,
    }
}

/// Why a record could not be read.
#[derive(Debug, Clone, Copy, PartialEq, Eq, Structural)]
pub enum RecordError {
    /// The address is no base58 text of at most 32 bytes.
    Base58,
    /// The address's bytes encode no public key.
    PublicKey,
}

/// The identifier that base58 address text stands for.
pub open spec fn address_of(text: Seq<u8>) -> Result<Seq<u8>, RecordError> {
    match base58_decoded(text) {
        Some(d) => if d.len() <= 32 {
            match public_key_decoded(d + zero_bytes((32 - d.len()) as nat)) {
                Some(k) => Ok(k),
                None => Err(RecordError::PublicKey),
            }
        } else {
            Err(RecordError::Base58)
        },
        None => Err(RecordError::Base58),
    }
}

/// Reads a base58 address into an identifier.
pub fn parse_address(text: &[u8]) -> (r: Result<Identifier, RecordError>)
    ensures
        match address_of(text@) {
            Ok(k) => r matches Ok(id) && id@ == k,
            Err(e) => r == Err::<Identifier, RecordError>(e),
        },
{
    match decode_base58_32(text) {
        Some(buffer) => key_from_bytes(buffer),
        None => Err(RecordError::Base58),
    }
}

/// The identifier of the public key that 32 bytes encode.
pub fn key_from_bytes(buffer: [u8; 32]) -> (r: Result<Identifier, RecordError>)
    ensures
        match public_key_decoded(buffer@) {
            Some(k) => r matches Ok(id) && id@ == k,
            None => r == Err::<Identifier, RecordError>(RecordError::PublicKey),
        },
{
    match decode_public_key(&buffer) {
        Some(bytes) => Ok(Identifier { bytes }),
        None => Err(RecordError::PublicKey),
    }
}

/// One line of a whitelist: add or remove an address, or anything else.
#[derive(Debug, Clone, Copy, PartialEq, Eq)]
pub enum Whitelist {
    Add { address: Identifier },
    Remove { address: Identifier },
    Other,
}

pub open spec fn add_word() -> Seq<u8> {
    seq![97, 100, 100]  // "add"
}

pub open spec fn remove_word() -> Seq<u8> {
    seq![114, 101, 109, 111, 118, 101]  // "remove"
}

fn is_word(v: &[u8], word: &[u8]) -> (r: bool)
    ensures
        r == (v@ == word@),
{
    if v.len() != word.len() {
        return false;
    }
    let mut i: usize = 0;
    while i < v.len()
        invariant
            v@.len() == word@.len(),
            0 <= i <= v@.len(),
            forall|j: int| 0 <= j < i ==> v@[j] == word@[j],
        decreases v@.len() - i,
    {
        if v[i] != word[i] {
            return false;
        }
        i = i + 1;
    }
    assert(v@ =~= word@);
    true
}

impl Whitelist {
    /// Reads a whitelist record from its first field (the operation) and its
    /// second field (the base58 address), if there is one.
    pub fn from_record(variant: &[u8], value: Option<&[u8]>) -> (r: Result<Whitelist, RecordError>)
        ensures
            match value {
                Some(x) if variant@ == add_word() => match address_of(x@) {
                    Ok(k) => r matches Ok(Whitelist::Add { address }) && address@ == k,
                    Err(e) => r == Err::<Whitelist, RecordError>(e),
                },
                Some(x) if variant@ == remove_word() => match address_of(x@) {
                    Ok(k) => r matches Ok(Whitelist::Remove { address }) && address@ == k,
                    Err(e) => r == Err::<Whitelist, RecordError>(e),
                },
                _ => r == Ok::<Whitelist, RecordError>(Whitelist::Other),
            },
    {
        let add = vec![97u8, 100, 100];
        let remove = vec![114u8, 101, 109, 111, 118, 101];
        assert(add@ =~= add_word());
        assert(remove@ =~= remove_word());
        match value {
            Some(x) => {
                if is_word(variant, add.as_slice()) {
                    let address = parse_address(x)?;
                    Ok(Whitelist::Add { address })
                } else if is_word(variant, remove.as_slice()) {
                    let address = parse_address(x)?;
                    Ok(Whitelist::Remove { address })
                } else {
                    Ok(Whitelist::Other)
                }
            },
            None => Ok(Whitelist::Other),
        }
    }
}

/// The 33 bytes of a whitelist line: 0 and the address to add, 1 and the
/// address to remove, or zeros for any other line.
pub open spec fn whitelist_bytes(w: Whitelist) -> Seq<u8> {
    match w {
        Whitelist::Add { address } => seq![0u8] + address@,
        Whitelist::Remove { address } => seq![1u8] + address@,
        Whitelist::Other => zero_bytes(33),
    }
}

impl Whitelist {
    pub fn to_bytes(&self) -> (r: Vec<u8>)
        ensures
            r@ == whitelist_bytes(*self),
    {
        let mut out: Vec<u8> = Vec::new();
        match self {
            Whitelist::Add { address } => {
                out.push(0u8);
                push_slice(&mut out, address.bytes.as_slice());
            },
            Whitelist::Remove { address } => {
                out.push(1u8);
                push_slice(&mut out, address.bytes.as_slice());
            },
            Whitelist::Other => {
                let mut i: usize = 0;
                while i < 33
                    invariant
                        0 <= i <= 33,
                        out@ == zero_bytes(i as nat),
                    decreases 33 - i,
                {
                    out.push(0u8);
                    assert(out@ =~= zero_bytes((i + 1) as nat));
                    i = i + 1;
                }
            },
        }
        assert(out@ =~= whitelist_bytes(*self));
        out
    }
}

fn push_slice(out: &mut Vec<u8>, b: &[u8])
    ensures
        final(out)@ == old(out)@ + b@,
{
    let ghost start = out@;
    let mut i: usize = 0;
    while i < b.len()
        invariant
            0 <= i <= b@.len(),
            start == old(out)@,
            out@ == start + b@.subrange(0, i as int),
        decreases b@.len() - i,
    {
        out.push(b[i]);
        assert(b@.subrange(0, i + 1) =~= b@.subrange(0, i as int).push(b@[i as int]));
        i = i + 1;
    }
    assert(b@.subrange(0, b@.len() as int) =~= b@);
}

/// A transfer of an amount from a sender to a buyer, at a TAI64 time.
#[derive(Debug, Clone, Copy, PartialEq, Eq)]
pub struct Activity {
    pub sender: Identifier,
    pub buyer: Identifier,
    pub amount: u64,
    pub timestamp: u64,
}

/// The 80 bytes of an activity: sender, buyer, amount and timestamp.
pub open spec fn activity_bytes(a: Activity) -> Seq<u8> {
    a.sender@ + a.buyer@ + le8(a.amount) + le8(a.timestamp)
}

impl Activity {
    /// Reads an activity whose parties are written in base58.
    pub fn from_fields(sender: &[u8], buyer: &[u8], amount: u64, timestamp: u64) -> (r: Result<
        Activity,
        RecordError,
    >)
        ensures
            match (address_of(sender@), address_of(buyer@)) {
                (Ok(s), Ok(b)) => r matches Ok(a) && a.sender@ == s && a.buyer@ == b && a.amount
                    == amount && a.timestamp == timestamp,
                (Err(e), _) => r == Err::<Activity, RecordError>(e),
                (Ok(_), Err(e)) => r == Err::<Activity, RecordError>(e),
            },
    {
        let sender = parse_address(sender)?;
        let buyer = parse_address(buyer)?;
        Ok(Activity { sender, buyer, amount, timestamp })
    }

    pub fn to_bytes(&self) -> (r: Vec<u8>)
        ensures
            r@ == activity_bytes(*self),
    {
        let mut out: Vec<u8> = Vec::new();
        push_slice(&mut out, self.sender.bytes.as_slice());
        push_slice(&mut out, self.buyer.bytes.as_slice());
        push_le8(&mut out, self.amount);
        push_le8(&mut out, self.timestamp);
        out
    }
}

/// The operation byte of a call carrying activities.
pub const ACTIVITY_OPERATION: u8 = 0x00;

/// The operation byte of a call carrying whitelist lines.
pub const WHITELIST_OPERATION: u8 = 0x01;

/// The bytes of a call: caller key, signature key, operation, record
/// count, records.
pub open spec fn call_bytes(
    op: u8,
    caller: Seq<u8>,
    signature: Seq<u8>,
    count: u64,
    body: Seq<u8>,
) -> Seq<u8> {
    caller + signature + seq![op] + le8(count) + body
}

/// What bytes read as a call with operation `op`: both keys, the count and
/// the records; nothing where they are too short, carry another operation,
/// or hold no key where one is due.
pub open spec fn call_parsed(op: u8, b: Seq<u8>) -> Option<(Seq<u8>, Seq<u8>, u64, Seq<u8>)> {
    if b.len() >= 73 && b[64] == op {
        match (public_key_decoded(b.subrange(0, 32)), public_key_decoded(b.subrange(32, 64))) {
            (Some(c), Some(s)) => Some((c, s, u64_of_le(b.subrange(65, 73)), b.subrange(73, b.len() as int))),
            _ => None,
        }
    } else {
        None
    }
}

/// Decoding the bytes of a call gives the call back, where both of its keys
/// are in the canonical form that decoding yields.
pub proof fn lemma_call_round_trip(
    op: u8,
    caller: Seq<u8>,
    signature: Seq<u8>,
    count: u64,
    body: Seq<u8>,
)
    requires
        caller.len() == 32,
        signature.len() == 32,
        public_key_decoded(caller) == Some(caller),
        public_key_decoded(signature) == Some(signature),
    ensures
        call_parsed(op, call_bytes(op, caller, signature, count, body)) == Some(
            (caller, signature, count, body),
        ),
{
    let b = call_bytes(op, caller, signature, count, body);
    assert(b.subrange(0, 32) =~= caller);
    assert(b.subrange(32, 64) =~= signature);
    assert(b[64] == op);
    assert(b.subrange(65, 73) =~= le8(count));
    assert(b.subrange(73, b.len() as int) =~= body);
    lemma_u64_of_le8(count);
}

fn array32(b: &[u8], start: usize) -> (r: [u8; 32])
    requires
        start + 32 <= b@.len(),
    ensures
        r@ == b@.subrange(start as int, start + 32),
{
    let mut r = [0u8; 32];
    let len = b.len();
    let mut i: usize = 0;
    while i < 32
        invariant
            0 <= i <= 32,
            len == b@.len(),
            start + 32 <= b@.len(),
            forall|j: int| 0 <= j < i ==> r@[j] == b@[start + j],
        decreases 32 - i,
    {
        r[i] = b[start + i];
        i = i + 1;
    }
    assert(r@ =~= b@.subrange(start as int, start + 32));
    r
}

fn encode_call(op: u8, caller: &Identifier, signature: &Identifier, count: u64, body: &[u8]) -> (r:
    Vec<u8>)
    ensures
        r@ == call_bytes(op, caller@, signature@, count, body@),
{
    let mut out: Vec<u8> = Vec::new();
    push_slice(&mut out, caller.bytes.as_slice());
    push_slice(&mut out, signature.bytes.as_slice());
    out.push(op);
    push_le8(&mut out, count);
    push_slice(&mut out, body);
    out
}

fn decode_call(op: u8, bytes: &[u8]) -> (r: Option<(Identifier, Identifier, u64, Vec<u8>)>)
    ensures
        match call_parsed(op, bytes@) {
            Some((c, s, n, body)) => r matches Some((ci, si, ni, bi)) && ci@ == c && si@ == s && ni
                == n && bi@ == body,
            None => r is None,
        },
{
    if bytes.len() < 73 || bytes[64] != op {
        return None;
    }
    let caller = match decode_public_key(&array32(bytes, 0)) {
        Some(k) => k,
        None => return None,
    };
    let signature = match decode_public_key(&array32(bytes, 32)) {
        Some(k) => k,
        None => return None,
    };
    let count = (bytes[65] as u64) | ((bytes[66] as u64) << 8) | ((bytes[67] as u64) << 16) | ((
    bytes[68] as u64) << 24) | ((bytes[69] as u64) << 32) | ((bytes[70] as u64) << 40) | ((
    bytes[71] as u64) << 48) | ((bytes[72] as u64) << 56);
    assert(count == u64_of_le(bytes@.subrange(65, 73)));
    let mut body: Vec<u8> = Vec::new();
    let mut i: usize = 73;
    while i < bytes.len()
        invariant
            73 <= i <= bytes@.len(),
            body@ == bytes@.subrange(73, i as int),
        decreases bytes@.len() - i,
    {
        body.push(bytes[i]);
        assert(bytes@.subrange(73, i + 1) =~= bytes@.subrange(73, i as int).push(bytes@[i as int]));
        i = i + 1;
    }
    Some((Identifier { bytes: caller }, Identifier { bytes: signature }, count, body))
}

/// A call that registers activities.
#[derive(Debug, Clone, PartialEq, Eq)]
pub struct ActivityCall {
    pub caller: Identifier,
    pub signature: Identifier,
    pub count: u64,
    pub activities: Vec<u8>,
}

impl ActivityCall {
    pub fn encode(&self) -> (r: Vec<u8>)
        ensures
            r@ == call_bytes(
                ACTIVITY_OPERATION,
                self.caller@,
                self.signature@,
                self.count,
                self.activities@,
            ),
    {
        encode_call(ACTIVITY_OPERATION, &self.caller, &self.signature, self.count, self.activities.as_slice())
    }

    pub fn decode(bytes: &[u8]) -> (r: Option<ActivityCall>)
        ensures
            match call_parsed(ACTIVITY_OPERATION, bytes@) {
                Some((c, s, n, body)) => r matches Some(x) && x.caller@ == c && x.signature@ == s
                    && x.count == n && x.activities@ == body,
                None => r is None,
            },
    {
        match decode_call(ACTIVITY_OPERATION, bytes) {
            Some((caller, signature, count, activities)) => Some(
                ActivityCall { caller, signature, count, activities },
            ),
            None => None,
        }
    }

    pub fn encoded_len(&self) -> (r: usize)
        requires
            self.activities@.len() <= usize::MAX - 73,
        ensures
            r == call_bytes(
                ACTIVITY_OPERATION,
                self.caller@,
                self.signature@,
                self.count,
                self.activities@,
            ).len(),
    {
        73 + self.activities.len()
    }
}

/// A call that edits the whitelist.
#[derive(Debug, Clone, PartialEq, Eq)]
pub struct WhitelistCall {
    pub caller: Identifier,
    pub signature: Identifier,
    pub count: u64,
    pub whitelist: Vec<u8>,
}

impl WhitelistCall {
    pub fn encode(&self) -> (r: Vec<u8>)
        ensures
            r@ == call_bytes(
                WHITELIST_OPERATION,
                self.caller@,
                self.signature@,
                self.count,
                self.whitelist@,
            ),
    {
        encode_call(WHITELIST_OPERATION, &self.caller, &self.signature, self.count, self.whitelist.as_slice())
    }

    pub fn decode(bytes: &[u8]) -> (r: Option<WhitelistCall>)
        ensures
            match call_parsed(WHITELIST_OPERATION, bytes@) {
                Some((c, s, n, body)) => r matches Some(x) && x.caller@ == c && x.signature@ == s
                    && x.count == n && x.whitelist@ == body,
                None => r is None,
            },
    {
        match decode_call(WHITELIST_OPERATION, bytes) {
            Some((caller, signature, count, whitelist)) => Some(
                WhitelistCall { caller, signature, count, whitelist },
            ),
            None => None,
        }
    }

    pub fn encoded_len(&self) -> (r: usize)
        requires
            self.whitelist@.len() <= usize::MAX - 73,
        ensures
            r == call_bytes(
                WHITELIST_OPERATION,
                self.caller@,
                self.signature@,
                self.count,
                self.whitelist@,
            ).len(),
    {
        73 + self.whitelist.len()
    }
}

} // verus!
