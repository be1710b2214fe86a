use dusk_bytes::Serializable;
use governance_core::commitment::{
    encode_transfers, seed, signed_payload, signing_message, truncate_seed, BatchKind, SignError,
    SignedBatch, TX_FEE, TX_TRANSFER,
};
use governance_core::identity::public_key;
use governance_core::transfer::{Side, Transfer};
use blake2::Digest;
use rand::SeedableRng;

fn sample() -> Vec<Transfer> {
    vec![
        Transfer::new(Side::Deposit { to: public_key(b"Cash") }, 100, 7),
        Transfer::new(Side::Withdrawal { from: public_key(b"acct") }, 50, 8),
        Transfer::new(Side::Deposit { to: public_key(b"TSWE") }, 984, 9),
    ]
}

fn secret_key() -> dusk_bls12_381_sign::SecretKey {
    dusk_bls12_381_sign::SecretKey::random(&mut rand::rngs::StdRng::seed_from_u64(7))
}

fn secret() -> [u8; 32] {
    secret_key().to_bytes()
}

#[test]
fn encoding_layout() {
    let to = public_key(b"Cash");
    let t = vec![Transfer::new(Side::Deposit { to }, 0x0102, 0x0a0b)];
    let bytes = encode_transfers(&t);
    assert_eq!(bytes.len(), 8 + 49);
    assert_eq!(&bytes[0..8], &[1, 0, 0, 0, 0, 0, 0, 0]);
    assert_eq!(bytes[8], 0);
    assert_eq!(&bytes[9..41], &to.bytes[..]);
    assert_eq!(&bytes[41..49], &[2, 1, 0, 0, 0, 0, 0, 0]);
    assert_eq!(&bytes[49..57], &[0x0b, 0x0a, 0, 0, 0, 0, 0, 0]);
    let w = vec![Transfer::new(Side::Withdrawal { from: to }, 1, 1)];
    assert_eq!(encode_transfers(&w)[8], 1);
    assert_eq!(encode_transfers(&vec![]), vec![0u8; 8]);
}

#[test]
fn seed_is_truncated_blake2b() {
    let data = sample();
    let digest: [u8; 32] = blake2::Blake2b::<blake2::digest::consts::U32>::digest(encode_transfers(&data)).into();
    let s = seed(&data);
    assert_eq!(&s[..31], &digest[..31]);
    assert_eq!(s[31], digest[31] & 0x3f);
    assert_eq!(s[31] & 0xc0, 0);
    let mut all = [0xffu8; 32];
    all[0] = 7;
    let t = truncate_seed(all);
    assert_eq!(t[31], 0x3f);
    assert_eq!(&t[..31], &all[..31]);
}

#[test]
fn seed_depends_on_order() {
    let data = sample();
    let first = seed(&data);
    let mut swapped = data.clone();
    swapped.swap(0, 2);
    assert_ne!(seed(&swapped), first);
    swapped.swap(0, 2);
    assert_eq!(seed(&swapped), first);
    assert_eq!(seed(&data), first);
}

#[test]
fn signing_message_layout() {
    let data = sample();
    let s = seed(&data);
    let msg = signing_message(BatchKind::Fee, &s, &data);
    assert_eq!(msg.len(), 64 + 128 * 3);
    assert_eq!(&msg[..32], &s[..]);
    assert_eq!(msg[32], TX_FEE);
    assert!(msg[33..64].iter().all(|b| *b == 0));
    assert!(msg[64..96].iter().all(|b| *b == 0));
    assert_eq!(&msg[96..128], &public_key(b"Cash").bytes[..]);
    assert_eq!(msg[128], 100);
    assert_eq!(msg[160], 7);
    assert_eq!(&msg[192..224], &public_key(b"acct").bytes[..]);
    assert!(msg[224..256].iter().all(|b| *b == 0));
    assert_eq!(BatchKind::Transfer.tag(), TX_TRANSFER);
}

#[test]
fn empty_batches_are_never_signed() {
    assert_eq!(signed_payload(&secret(), BatchKind::Transfer, vec![]), Err(SignError::EmptyBatch));
}

#[test]
fn invalid_key_bytes_are_refused() {
    assert_eq!(signed_payload(&[0xff; 32], BatchKind::Fee, sample()), Err(SignError::InvalidKey));
}

#[test]
fn signature_is_bls_over_the_message() {
    let data = sample();
    let signed = signed_payload(&secret(), BatchKind::Transfer, data.clone()).unwrap();
    let msg = signing_message(BatchKind::Transfer, &signed.seed, &data);
    let sk = secret_key();
    let expected = sk.sign(&dusk_bls12_381_sign::PublicKey::from(&sk), &msg).to_bytes();
    assert_eq!(signed.signature, expected);
    assert_ne!(signed.signature, [0u8; 48]);
}

#[test]
fn signed_payload_binds_seed_and_kind() {
    let data = sample();
    let signed: SignedBatch = signed_payload(&secret(), BatchKind::Transfer, data.clone()).unwrap();
    assert_eq!(signed.kind, BatchKind::Transfer);
    assert_eq!(signed.seed, seed(&data));
    assert_eq!(signed.transfers, data);
    let again = signed_payload(&secret(), BatchKind::Transfer, data.clone()).unwrap();
    assert_eq!(again.signature, signed.signature);
    let fee = signed_payload(&secret(), BatchKind::Fee, data.clone()).unwrap();
    assert_ne!(fee.signature, signed.signature);
    let wire = signed.to_wire();
    assert_eq!(&wire[..48], &signed.signature[..]);
    assert_eq!(wire[48], TX_TRANSFER);
    assert_eq!(&wire[49..81], &signed.seed[..]);
    assert_eq!(&wire[81..], &encode_transfers(&data)[..]);
}
