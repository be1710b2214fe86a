//! Deterministic derivation of counter-party identifiers from byte phrases.
//!
//! An identifier is the 32-byte encoding of a public key whose secret key is
//! drawn from a generator seeded with the blake3 hash of the phrase, so the
//! same phrase gives the same identifier in every run.

use vstd::prelude::*;

use dusk_bytes::Serializable;
use rand::SeedableRng;

verus! {

/// The blake3 digest of a byte string.
pub uninterp spec fn blake3_of(data: Seq<u8>) -> Seq<u8>;

/// The encoded public key whose secret key is drawn from a generator seeded
/// with `seed`.
pub uninterp spec fn public_key_from_seed(seed: Seq<u8>) -> Seq<u8>;

/// Relies on `blake3::hash`: the 32-byte digest, a function of the bytes alone.
#[verifier::external_body]
fn blake3_hash(data: &[u8]) -> (r: [u8; 32])
    ensures
        r@ == blake3_of(data@),
{
    *blake3::hash(data).as_bytes()
}

/// Relies on `dusk_pki::SecretKey::random` fed by `rand::rngs::StdRng::from_seed`
/// (a deterministic stream for a given seed), and on the 32-byte encoding of
/// the matching `dusk_pki::PublicKey`.
#[verifier::external_body]
fn key_from_seed(seed: [u8; 32]) -> (r: [u8; 32])
    ensures
        r@ == public_key_from_seed(seed@),
{
    let mut rng = rand::rngs::StdRng::from_seed(seed);
    let secret = dusk_pki::SecretKey::random(&mut rng);
    dusk_pki::PublicKey::from(&secret).to_bytes()
}

/// A counter-party identifier: the 32-byte encoding of a public key.
#[derive(Debug, Clone, Copy, PartialEq, Eq)]
pub struct Identifier {
    pub bytes: [u8; 32],
}

impl View for Identifier {
    type V = Seq<u8>;

    open spec fn view(&self) -> Seq<u8> {
        self.bytes@
    }
}

/// The identifier that a phrase derives to.
pub open spec fn derived_identifier(phrase: Seq<u8>) -> Seq<u8> {
    public_key_from_seed(blake3_of(phrase))
}

impl Identifier {
    /// The identifier of the key drawn from `seed`.
    pub fn from_seed(seed: [u8; 32]) -> (r: Identifier)
        ensures
            r@ == public_key_from_seed(seed@),
    {
        Identifier { bytes: key_from_seed(seed) }
    }
}

/// Derives the identifier of a phrase (an account name or a security name).
pub fn public_key(phrase: &[u8]) -> (r: Identifier)
    ensures
        r@ == derived_identifier(phrase@),
{
    let seed = blake3_hash(phrase);
    Identifier::from_seed(seed)
}

} // verus!
