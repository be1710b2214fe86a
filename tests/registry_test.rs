use governance_core::identity::public_key;
use governance_core::registry::{
    key_from_bytes, parse_address, Activity, ActivityCall, RecordError, Whitelist, WhitelistCall,
};

fn b58(bytes: &[u8]) -> Vec<u8> {
    bs58::encode(bytes).into_string().into_bytes()
}

#[test]
fn whitelist_records() {
    let key = public_key(b"member");
    let text = b58(&key.bytes);
    assert_eq!(Whitelist::from_record(b"add", Some(&text[..])), Ok(Whitelist::Add { address: key }));
    assert_eq!(Whitelist::from_record(b"remove", Some(&text[..])), Ok(Whitelist::Remove { address: key }));
    assert_eq!(Whitelist::from_record(b"keep", Some(&text[..])), Ok(Whitelist::Other));
    assert_eq!(Whitelist::from_record(b"add", None), Ok(Whitelist::Other));
    assert_eq!(Whitelist::from_record(b"add", Some(&b"0OIl"[..])), Err(RecordError::Base58));
    assert_eq!(Whitelist::from_record(b"add", Some(&b58(&[7u8; 40])[..])), Err(RecordError::Base58));
    let mut off_curve = [0xffu8; 32];
    off_curve[0] = 2;
    assert_eq!(parse_address(&b58(&off_curve)), Err(RecordError::PublicKey));
}

#[test]
fn whitelist_bytes() {
    let key = public_key(b"member");
    let add = Whitelist::Add { address: key }.to_bytes();
    assert_eq!(add[0], 0);
    assert_eq!(&add[1..], &key.bytes[..]);
    assert_eq!(Whitelist::Remove { address: key }.to_bytes()[0], 1);
    assert_eq!(Whitelist::Other.to_bytes(), vec![0u8; 33]);
}

#[test]
fn activity_records() {
    let s = public_key(b"seller");
    let b = public_key(b"buyer");
    let a = Activity::from_fields(&b58(&s.bytes), &b58(&b.bytes), 12, 34).unwrap();
    assert_eq!(a, Activity { sender: s, buyer: b, amount: 12, timestamp: 34 });
    let bytes = a.to_bytes();
    assert_eq!(bytes.len(), 80);
    assert_eq!(&bytes[..32], &s.bytes[..]);
    assert_eq!(&bytes[32..64], &b.bytes[..]);
    assert_eq!(bytes[64], 12);
    assert_eq!(bytes[72], 34);
    assert_eq!(Activity::from_fields(b"!", &b58(&b.bytes), 1, 1), Err(RecordError::Base58));
}

#[test]
fn calls_round_trip() {
    let caller = public_key(b"caller");
    let signature = public_key(b"signature");
    let call = WhitelistCall { caller, signature, count: 2, whitelist: vec![9, 8, 7] };
    let bytes = call.encode();
    assert_eq!(bytes.len(), call.encoded_len());
    assert_eq!(bytes[64], 0x01);
    assert_eq!(bytes[65], 2);
    assert_eq!(WhitelistCall::decode(&bytes), Some(call));
    assert_eq!(ActivityCall::decode(&bytes), None);
    let act = ActivityCall { caller, signature, count: 1, activities: vec![1; 80] };
    let bytes = act.encode();
    assert_eq!(bytes[64], 0x00);
    assert_eq!(ActivityCall::decode(&bytes), Some(act.clone()));
    assert_eq!(ActivityCall::decode(&bytes[..72]), None);
    assert_eq!(act.encoded_len(), 153);
}

#[test]
fn key_bytes_must_be_a_point() {
    let key = public_key(b"member");
    assert_eq!(key_from_bytes(key.bytes), Ok(key));
    let mut off_curve = [0xffu8; 32];
    off_curve[0] = 2;
    assert_eq!(key_from_bytes(off_curve), Err(RecordError::PublicKey));
}
