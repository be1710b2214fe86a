//! Commitment to a batch and its signature.
//!
//! A batch's seed is the blake2b-256 digest of the batch's canonical
//! encoding, with the two highest bits of its last byte cleared so that it
//! is a valid element of the signing field. The signed message is a run of
//! 32-byte field words: the seed, the batch kind, then for each transfer its
//! payer, its receiver (an absent party is the zero word), its amount and its
//! timestamp.

use vstd::prelude::*;

use blake2::Digest;
use dusk_bytes::Serializable;

use crate::transfer::{Side, Transfer, TransferView};
use crate::transfer_map::views_of;

verus! {

/// The kind tag of a batch of transfers.
pub const TX_TRANSFER: u8 = 0x04;

/// The kind tag of a batch of fees.
pub const TX_FEE: u8 = 0x05;

/// Whether a batch carries transfers or fees.
#[derive(Debug, Clone, Copy, PartialEq, Eq, Structural)]
pub enum BatchKind {
    Transfer,
    Fee,
}

pub open spec fn kind_tag(k: BatchKind) -> u8 {
    match k {
        BatchKind::Transfer => TX_TRANSFER,
        BatchKind::Fee => TX_FEE,
    }
}

impl BatchKind {
    pub fn tag(&self) -> (r: u8)
        ensures
            r == kind_tag(*self),
    {
        match self {
            BatchKind::Transfer => TX_TRANSFER,
            BatchKind::Fee => TX_FEE,
        }
    }
}

/// The eight little-endian bytes of `x`.
pub open spec fn le8(x: u64) -> Seq<u8> {
    Seq::new(8, |i: int| ((x >> ((8 * i) as u64)) & 0xff) as u8)
}

/// The canonical encoding of one transfer: a direction byte (0 for a
/// deposit, 1 for a withdrawal), the counter-party, the amount and the
/// timestamp.
pub open spec fn transfer_encoding(t: TransferView) -> Seq<u8> {
    seq![if t.deposit { 0u8 } else { 1u8 }] + t.party + le8(t.amount) + le8(t.timestamp)
}

pub open spec fn transfers_body(ts: Seq<TransferView>) -> Seq<u8>
    decreases ts.len(),
{
    if ts.len() == 0 {
        seq![]
    } else {
        transfers_body(ts.drop_last()) + transfer_encoding(ts.last())
    }
}

/// The canonical encoding of a transfer list: its length, then each transfer.
pub open spec fn transfers_encoding(ts: Seq<TransferView>) -> Seq<u8> {
    le8(ts.len() as u64) + transfers_body(ts)
}

/// The blake2b digest, 32 bytes long, of a message.
pub uninterp spec fn blake2b_256_of(msg: Seq<u8>) -> Seq<u8>;

/// A digest with the two highest bits of its last byte cleared.
pub open spec fn truncated(d: Seq<u8>) -> Seq<u8> {
    d.update(31, d[31] & 0x3f)
}

/// The seed committing to a transfer list.
pub open spec fn commit_seed(ts: Seq<TransferView>) -> Seq<u8> {
    truncated(blake2b_256_of(transfers_encoding(ts)))
}

pub open spec fn zero_word() -> Seq<u8> {
    Seq::new(32, |i: int| 0u8)
}

/// A `u64` as a field word: little-endian, padded with zeros.
pub open spec fn u64_word(x: u64) -> Seq<u8> {
    le8(x) + Seq::new(24, |i: int| 0u8)
}

/// The field words of one transfer: payer, receiver, amount, timestamp.
pub open spec fn transfer_words(t: TransferView) -> Seq<u8> {
    (if t.deposit { zero_word() } else { t.party }) + (if t.deposit { t.party } else { zero_word() })
        + u64_word(t.amount) + u64_word(t.timestamp)
}

pub open spec fn transfers_words(ts: Seq<TransferView>) -> Seq<u8>
    decreases ts.len(),
{
    if ts.len() == 0 {
        seq![]
    } else {
        transfers_words(ts.drop_last()) + transfer_words(ts.last())
    }
}

/// The message that is signed for a batch of kind `k` with seed `seed`.
pub open spec fn message_of(k: BatchKind, seed: Seq<u8>, ts: Seq<TransferView>) -> Seq<u8> {
    seed + u64_word(kind_tag(k) as u64) + transfers_words(ts)
}

/// Relies on `blake2::Blake2b<U32>` through `Digest::digest`: the 32-byte
/// digest, a function of the message alone.
#[verifier::external_body]
fn blake2b_256(msg: &[u8]) -> (r: [u8; 32])
    ensures
        r@ == blake2b_256_of(msg@),
{
    blake2::Blake2b::<blake2::digest::consts::U32>::digest(msg).into()
}

/// The 48-byte BLS signature of a message under the secret key whose
/// 32-byte encoding is `sk`, or nothing where those bytes encode no key.
pub uninterp spec fn bls_signature_of(sk: Seq<u8>, msg: Seq<u8>) -> Option<Seq<u8>>;

/// Relies on `dusk_bls12_381_sign::SecretKey::from_bytes` (which refuses
/// bytes that are no canonical scalar), on `SecretKey::sign` with the public
/// key of the same secret key, and on the 48-byte encoding of the
/// signature: a function of the key's bytes and the message alone.
#[verifier::external_body]
fn bls_sign(sk: &[u8; 32], msg: &[u8]) -> (r: Option<[u8; 48]>)
    ensures
        match bls_signature_of(sk@, msg@) {
            Some(sig) => r matches Some(b) && b@ == sig,
            None => r is None,
        },
{
    match dusk_bls12_381_sign::SecretKey::from_bytes(sk) {
        Ok(key) => Some(key.sign(&dusk_bls12_381_sign::PublicKey::from(&key), msg).to_bytes()),
        Err(_) => None,
    }
}

/// `s` with the elements at `i` and `j` exchanged.
pub open spec fn swapped<T>(s: Seq<T>, i: int, j: int) -> Seq<T> {
    s.update(i, s[j]).update(j, s[i])
}

/// The `u64` whose little-endian bytes are the first eight of `b`.
pub open spec fn u64_of_le(b: Seq<u8>) -> u64 {
    (b[0] as u64) | ((b[1] as u64) << 8) | ((b[2] as u64) << 16) | ((b[3] as u64) << 24) | ((
    b[4] as u64) << 32) | ((b[5] as u64) << 40) | ((b[6] as u64) << 48) | ((b[7] as u64) << 56)
}

pub(crate) proof fn lemma_u64_of_le8(x: u64)
    ensures
        u64_of_le(le8(x)) == x,
{
    let b = le8(x);
    assert(b[0] == ((x >> 0u64) & 0xff) as u8);
    assert(b[1] == ((x >> 8u64) & 0xff) as u8);
    assert(b[2] == ((x >> 16u64) & 0xff) as u8);
    assert(b[3] == ((x >> 24u64) & 0xff) as u8);
    assert(b[4] == ((x >> 32u64) & 0xff) as u8);
    assert(b[5] == ((x >> 40u64) & 0xff) as u8);
    assert(b[6] == ((x >> 48u64) & 0xff) as u8);
    assert(b[7] == ((x >> 56u64) & 0xff) as u8);
    assert((((x >> 0u64) & 0xff) as u8 as u64) | ((((x >> 8u64) & 0xff) as u8 as u64) << 8) | ((((x
        >> 16u64) & 0xff) as u8 as u64) << 16) | ((((x >> 24u64) & 0xff) as u8 as u64) << 24) | ((((x
        >> 32u64) & 0xff) as u8 as u64) << 32) | ((((x >> 40u64) & 0xff) as u8 as u64) << 40) | ((((x
        >> 48u64) & 0xff) as u8 as u64) << 48) | ((((x >> 56u64) & 0xff) as u8 as u64) << 56) == x)
        by (bit_vector);
}

proof fn lemma_le8_injective(x: u64, y: u64)
    requires
        le8(x) == le8(y),
    ensures
        x == y,
{
    lemma_u64_of_le8(x);
    lemma_u64_of_le8(y);
}

proof fn lemma_transfer_encoding_injective(t: TransferView, u: TransferView)
    requires
        t.party.len() == 32,
        u.party.len() == 32,
        transfer_encoding(t) == transfer_encoding(u),
    ensures
        t == u,
{
    let et = transfer_encoding(t);
    let eu = transfer_encoding(u);
    assert(et[0] == (if t.deposit { 0u8 } else { 1u8 }));
    assert(eu[0] == (if u.deposit { 0u8 } else { 1u8 }));
    assert(t.deposit == u.deposit);
    assert(et.subrange(1, 33) =~= t.party);
    assert(eu.subrange(1, 33) =~= u.party);
    assert(et.subrange(33, 41) =~= le8(t.amount));
    assert(eu.subrange(33, 41) =~= le8(u.amount));
    assert(et.subrange(41, 49) =~= le8(t.timestamp));
    assert(eu.subrange(41, 49) =~= le8(u.timestamp));
    assert(t.party == u.party);
    lemma_le8_injective(t.amount, u.amount);
    lemma_le8_injective(t.timestamp, u.timestamp);
}

proof fn lemma_body_blocks(ts: Seq<TransferView>)
    requires
        forall|k: int| 0 <= k < ts.len() ==> (#[trigger] ts[k]).party.len() == 32,
    ensures
        transfers_body(ts).len() == 49 * ts.len(),
        forall|k: int|
            #![trigger ts[k]]
            0 <= k < ts.len() ==> transfers_body(ts).subrange(49 * k, 49 * k + 49)
                == transfer_encoding(ts[k]),
    decreases ts.len(),
{
    if ts.len() > 0 {
        let p = ts.drop_last();
        assert forall|k: int| 0 <= k < p.len() implies (#[trigger] p[k]).party.len() == 32 by {
            assert(p[k] == ts[k]);
        }
        lemma_body_blocks(p);
        let a = transfers_body(p);
        let b = transfer_encoding(ts.last());
        assert(transfers_body(ts) == a + b);
        assert forall|k: int|
            #![trigger ts[k]]
            0 <= k < ts.len() implies transfers_body(ts).subrange(49 * k, 49 * k + 49)
                == transfer_encoding(ts[k]) by {
            if k < p.len() {
                assert(p[k] == ts[k]);
                assert((a + b).subrange(49 * k, 49 * k + 49) =~= a.subrange(49 * k, 49 * k + 49));
            } else {
                assert((a + b).subrange(49 * k, 49 * k + 49) =~= b);
            }
        }
    }
}

/// The order of a batch is part of what its seed commits to: exchanging
/// two different transfers changes the encoding that is hashed into the
/// seed, and exchanging them back restores the list, hence the first
/// seed.
pub proof fn lemma_commitment_order(ts: Seq<Transfer>, i: int, j: int)
    requires
        0 <= i < ts.len(),
        0 <= j < ts.len(),
        ts[i]@ != ts[j]@,
    ensures
        transfers_encoding(views_of(swapped(ts, i, j))) != transfers_encoding(views_of(ts)),
        swapped(swapped(ts, i, j), i, j) == ts,
        commit_seed(views_of(swapped(swapped(ts, i, j), i, j))) == commit_seed(views_of(ts)),
{
    let s2 = swapped(ts, i, j);
    let v = views_of(ts);
    let v2 = views_of(s2);
    assert(swapped(s2, i, j) =~= ts);
    assert forall|k: int| 0 <= k < v.len() implies (#[trigger] v[k]).party.len() == 32 by {
        assert(v[k] == ts[k]@);
    }
    assert forall|k: int| 0 <= k < v2.len() implies (#[trigger] v2[k]).party.len() == 32 by {
        assert(v2[k] == s2[k]@);
    }
    lemma_body_blocks(v);
    lemma_body_blocks(v2);
    if transfers_encoding(v2) == transfers_encoding(v) {
        let e = transfers_encoding(v);
        assert(e.subrange(8, e.len() as int) =~= transfers_body(v));
        assert(transfers_encoding(v2).subrange(8, e.len() as int) =~= transfers_body(v2));
        assert(transfers_body(v2).subrange(49 * i, 49 * i + 49) == transfer_encoding(v2[i]));
        assert(transfers_body(v).subrange(49 * i, 49 * i + 49) == transfer_encoding(v[i]));
        assert(v2[i] == ts[j]@);
        lemma_transfer_encoding_injective(v2[i], v[i]);
        assert(false);
    }
}

pub(crate) fn push_le8(out: &mut Vec<u8>, x: u64)
    ensures
        final(out)@ == old(out)@ + le8(x),
{
    let ghost start = out@;
    let mut i: usize = 0;
    while i < 8
        invariant
            0 <= i <= 8,
            start == old(out)@,
            out@ == start + le8(x).subrange(0, i as int),
        decreases 8 - i,
    {
        out.push(((x >> ((8 * i) as u64)) & 0xff) as u8);
        assert(le8(x).subrange(0, i + 1) =~= le8(x).subrange(0, i as int).push(le8(x)[i as int]));
        i = i + 1;
    }
    assert(le8(x).subrange(0, 8) =~= le8(x));
}

fn push_bytes(out: &mut Vec<u8>, b: &[u8])
    ensures
        final(out)@ == old(out)@ + b@,
{
    let ghost start = out@;
    let mut i: usize = 0;
    while i < b.len()
        invariant
            0 <= i <= b@.len(),
            start == old(out)@,
            out@ == start + b@.subrange(0, i as int),
        decreases b@.len() - i,
    {
        out.push(b[i]);
        assert(b@.subrange(0, i + 1) =~= b@.subrange(0, i as int).push(b@[i as int]));
        i = i + 1;
    }
    assert(b@.subrange(0, b@.len() as int) =~= b@);
}

fn push_zeros(out: &mut Vec<u8>, n: usize)
    ensures
        final(out)@ == old(out)@ + Seq::new(n as nat, |i: int| 0u8),
{
    let ghost start = out@;
    let mut i: usize = 0;
    while i < n
        invariant
            0 <= i <= n,
            start == old(out)@,
            out@ == start + Seq::new(i as nat, |j: int| 0u8),
        decreases n - i,
    {
        out.push(0u8);
        assert(Seq::new((i + 1) as nat, |j: int| 0u8) =~= Seq::new(i as nat, |j: int| 0u8).push(
            0u8,
        ));
        i = i + 1;
    }
}

fn push_u64_word(out: &mut Vec<u8>, x: u64)
    ensures
        final(out)@ == old(out)@ + u64_word(x),
{
    push_le8(out, x);
    push_zeros(out, 24);
    assert(old(out)@ + le8(x) + Seq::new(24, |i: int| 0u8) =~= old(out)@ + u64_word(x));
}

fn push_transfer_encoding(out: &mut Vec<u8>, t: &Transfer)
    ensures
        final(out)@ == old(out)@ + transfer_encoding(t@),
{
    match t.side {
        Side::Deposit { to } => {
            out.push(0u8);
            push_bytes(out, to.bytes.as_slice());
        },
        Side::Withdrawal { from } => {
            out.push(1u8);
            push_bytes(out, from.bytes.as_slice());
        },
    }
    push_le8(out, t.amount);
    push_le8(out, t.timestamp);
    assert(final(out)@ =~= old(out)@ + transfer_encoding(t@));
}

fn push_transfer_words(out: &mut Vec<u8>, t: &Transfer)
    ensures
        final(out)@ == old(out)@ + transfer_words(t@),
{
    match t.side {
        Side::Deposit { to } => {
            push_zeros(out, 32);
            push_bytes(out, to.bytes.as_slice());
        },
        Side::Withdrawal { from } => {
            push_bytes(out, from.bytes.as_slice());
            push_zeros(out, 32);
        },
    }
    push_u64_word(out, t.amount);
    push_u64_word(out, t.timestamp);
    assert(Seq::new(32nat, |i: int| 0u8) =~= zero_word());
    assert(final(out)@ =~= old(out)@ + transfer_words(t@));
}

/// The canonical encoding of a transfer list.
pub fn encode_transfers(data: &Vec<Transfer>) -> (r: Vec<u8>)
    requires
        data@.len() <= u64::MAX,
    ensures
        r@ == transfers_encoding(views_of(data@)),
{
    let mut out: Vec<u8> = Vec::new();
    push_le8(&mut out, data.len() as u64);
    let ghost head = out@;
    let mut i: usize = 0;
    while i < data.len()
        invariant
            0 <= i <= data@.len(),
            head == le8(data@.len() as u64),
            out@ == head + transfers_body(views_of(data@.subrange(0, i as int))),
        decreases data@.len() - i,
    {
        let ghost before = out@;
        push_transfer_encoding(&mut out, &data[i]);
        proof {
            let p = views_of(data@.subrange(0, i + 1));
            assert(p.drop_last() =~= views_of(data@.subrange(0, i as int)));
            assert(p.last() == data@[i as int]@);
        }
        i = i + 1;
    }
    assert(data@.subrange(0, data@.len() as int) =~= data@);
    assert(views_of(data@).len() == data@.len());
    out
}

/// Clears the two highest bits of the last byte of a digest.
pub fn truncate_seed(digest: [u8; 32]) -> (r: [u8; 32])
    ensures
        r@ == truncated(digest@),
        r@[31] & 0xc0 == 0,
{
    let mut r = digest;
    let top = digest[31];
    let last = top & 0x3f;
    r[31] = last;
    assert(last & 0xc0 == 0) by (bit_vector)
        requires
            last == top & 0x3f,
    ;
    assert(r@ =~= truncated(digest@));
    r
}

/// The seed committing to a transfer list.
pub fn seed(data: &Vec<Transfer>) -> (r: [u8; 32])
    requires
        0 < data@.len() <= u64::MAX,
    ensures
        r@ == commit_seed(views_of(data@)),
        r@[31] & 0xc0 == 0,
{
    let msg = encode_transfers(data);
    truncate_seed(blake2b_256(msg.as_slice()))
}

/// The message signed for a batch of kind `kind` whose seed is `seed`.
pub fn signing_message(kind: BatchKind, seed: &[u8; 32], data: &Vec<Transfer>) -> (r: Vec<u8>)
    ensures
        r@ == message_of(kind, seed@, views_of(data@)),
{
    let mut out: Vec<u8> = Vec::new();
    push_bytes(&mut out, seed.as_slice());
    push_u64_word(&mut out, kind.tag() as u64);
    let ghost head = out@;
    let mut i: usize = 0;
    while i < data.len()
        invariant
            0 <= i <= data@.len(),
            head == seed@ + u64_word(kind_tag(kind) as u64),
            out@ == head + transfers_words(views_of(data@.subrange(0, i as int))),
        decreases data@.len() - i,
    {
        push_transfer_words(&mut out, &data[i]);
        proof {
            let p = views_of(data@.subrange(0, i + 1));
            assert(p.drop_last() =~= views_of(data@.subrange(0, i as int)));
            assert(p.last() == data@[i as int]@);
        }
        i = i + 1;
    }
    assert(data@.subrange(0, data@.len() as int) =~= data@);
    out
}

/// A committed and signed batch, ready for submission.
#[derive(Debug, Clone, PartialEq, Eq)]
pub struct SignedBatch {
    pub signature: [u8; 48],
    pub kind: BatchKind,
    pub seed: [u8; 32],
    pub transfers: Vec<Transfer>,
}

/// The bytes submitted for a signed batch: the signature, the kind tag, the
/// seed, then the canonical encoding of the transfers.
pub open spec fn wire_of(b: SignedBatch) -> Seq<u8> {
    b.signature@ + seq![kind_tag(b.kind)] + b.seed@ + transfers_encoding(views_of(b.transfers@))
}

impl SignedBatch {
    pub fn to_wire(&self) -> (r: Vec<u8>)
        requires
            self.transfers@.len() <= u64::MAX,
        ensures
            r@ == wire_of(*self),
    {
        let mut out: Vec<u8> = Vec::new();
        push_bytes(&mut out, self.signature.as_slice());
        out.push(self.kind.tag());
        push_bytes(&mut out, self.seed.as_slice());
        let body = encode_transfers(&self.transfers);
        push_bytes(&mut out, body.as_slice());
        assert(out@ =~= wire_of(*self));
        out
    }
}

/// Why a batch could not be signed.
#[derive(Debug, Clone, Copy, PartialEq, Eq, Structural)]
pub enum SignError {
    /// An empty list is no valid commitment: nothing is built for it.
    EmptyBatch,
    /// The secret key's bytes encode no key.
    InvalidKey,
}

/// Commits to a batch and signs it with the secret key whose 32-byte
/// encoding is `sk`. An empty list gets no seed and no signature.
pub fn signed_payload(sk: &[u8; 32], kind: BatchKind, transfers: Vec<Transfer>) -> (r: Result<
    SignedBatch,
    SignError,
>)
    requires
        transfers@.len() <= u64::MAX,
    ensures
        transfers@.len() == 0 ==> r == Err::<SignedBatch, SignError>(SignError::EmptyBatch),
        transfers@.len() > 0 ==> match bls_signature_of(
            sk@,
            message_of(kind, commit_seed(views_of(transfers@)), views_of(transfers@)),
        ) {
            Some(sig) => r matches Ok(b) && b.kind == kind && b.transfers@ == transfers@ && b.seed@
                == commit_seed(views_of(transfers@)) && b.signature@ == sig,
            None => r == Err::<SignedBatch, SignError>(SignError::InvalidKey),
        },
{
    if transfers.len() == 0 {
        return Err(SignError::EmptyBatch);
    }
    let seed = seed(&transfers);
    let msg = signing_message(kind, &seed, &transfers);
    match bls_sign(sk, msg.as_slice()) {
        Some(signature) => Ok(SignedBatch { signature, kind, seed, transfers }),
        None => Err(SignError::InvalidKey),
    }
}

} // verus!
