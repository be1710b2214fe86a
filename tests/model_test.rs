use governance_core::address::Address;
use governance_core::config::{Args, Config};
use governance_core::error::FeedError;
use governance_core::events::{
    occurrence_from_iso8601, occurrence_from_unix, Cause, Change, ChangeType, Event,
    SecurityDefinition, TAI64_UNIX_EPOCH,
};
use governance_core::identity::{public_key, Identifier};
use governance_core::transfer::{FixedPointPolicy, Quantity};

#[test]
fn names_map_to_variants() {
    assert_eq!(Cause::from_name(b"Deposit"), Some(Cause::Deposit));
    assert_eq!(Cause::from_name(b"Withdrawal"), Some(Cause::Withdrawal));
    assert_eq!(Cause::from_name(b"Rebalance"), Some(Cause::Rebalance));
    assert_eq!(Cause::from_name(b"Fee"), Some(Cause::Fee));
    assert_eq!(Cause::from_name(b"fee"), None);
    assert_eq!(ChangeType::from_name(b"Reservation"), Some(ChangeType::Reservation));
    assert_eq!(ChangeType::from_name(b"Security"), Some(ChangeType::Security));
    assert_eq!(ChangeType::from_name(b""), None);
    assert_eq!(SecurityDefinition::from_name(b"None"), Some(SecurityDefinition::Unspecified));
    assert_eq!(SecurityDefinition::from_name(b"TCBT"), Some(SecurityDefinition::Tcbt));
    assert_eq!(SecurityDefinition::from_name(b"Tcbt"), None);
    assert_eq!(SecurityDefinition::Tgbt.name(), b"TGBT".to_vec());
    assert_eq!(Cause::Withdrawal.name(), b"Withdrawal".to_vec());
    assert_eq!(ChangeType::Cash.name(), b"Cash".to_vec());
}

#[test]
fn contract_ids_carry_the_code() {
    let id = SecurityDefinition::Cash.to_id();
    let mut expected = [0u8; 32];
    expected[30] = 0x10;
    assert_eq!(id, expected);
    let id = SecurityDefinition::Tcbt.to_id();
    expected[31] = 0x04;
    assert_eq!(id, expected);
    assert_eq!(SecurityDefinition::Unspecified.to_id(), [0u8; 32]);
    assert_eq!(SecurityDefinition::Tret.code(), 0x1002);
}

#[test]
fn dates_become_tai64_labels() {
    assert_eq!(occurrence_from_iso8601("2022-09-25T10:00:00Z"), Some(1664100000 + TAI64_UNIX_EPOCH));
    assert_eq!(occurrence_from_iso8601("2022-09-26T12:00:00Z"), Some(4611686020091581514));
    assert_eq!(occurrence_from_iso8601("2023-01-27T14:59:11.439Z"), Some(4611686020102219465));
    assert_eq!(occurrence_from_iso8601("yesterday"), None);
    assert_eq!(occurrence_from_unix(0), Some(TAI64_UNIX_EPOCH));
    assert_eq!(occurrence_from_unix(-(TAI64_UNIX_EPOCH as i64)), Some(0));
    assert_eq!(occurrence_from_unix(-(TAI64_UNIX_EPOCH as i64) - 1), None);
    assert_eq!(occurrence_from_unix(i64::MAX), None);
}

#[test]
fn events_and_changes_decode_from_names() {
    let c = Change::decode(b"Security", b"TSWE", Quantity::new(false, 984), Quantity::new(false, 25)).unwrap();
    assert_eq!(c.change_type, ChangeType::Security);
    assert_eq!(c.security, SecurityDefinition::Tswe);
    assert_eq!(Change::decode(b"Stock", b"TSWE", Quantity::new(false, 1), Quantity::new(false, 1)), Err(FeedError::MalformedFeed));
    assert_eq!(Change::decode(b"Cash", b"XYZ", Quantity::new(false, 1), Quantity::new(false, 1)), Err(FeedError::MalformedFeed));
    let e = Event::decode(b"Deposit", "2022-09-25T10:00:00Z", vec![c]).unwrap();
    assert_eq!(e, Event { cause: Cause::Deposit, changes: vec![c], occurrence: 1664100000 + TAI64_UNIX_EPOCH });
    assert_eq!(Event::decode(b"Gift", "2022-09-25T10:00:00Z", vec![]), Err(FeedError::MalformedFeed));
    assert_eq!(Event::decode(b"Fee", "not a date", vec![]), Err(FeedError::MalformedFeed));
}

#[test]
fn identifiers_are_deterministic_and_distinct() {
    let a = public_key(b"Cash");
    assert_eq!(a, public_key(b"Cash"));
    assert_ne!(a, public_key(b"TSWE"));
    assert_ne!(a, public_key(b""));
    let seed = *blake3::hash(b"Cash").as_bytes();
    assert_eq!(Identifier::from_seed(seed), a);
    assert_ne!(a.bytes, seed);
}

#[test]
fn fixed_point_scales() {
    assert_eq!(FixedPointPolicy::Micro.scale(), 1_000_000);
    assert_eq!(FixedPointPolicy::FullU32.scale(), 4_294_967_295);
    assert_eq!(Quantity::new(true, 5), Quantity { negative: true, magnitude: 5 });
}

#[test]
fn address_buffer_is_zero() {
    assert_eq!(Address::buffer(), [0u8; 64]);
    assert_eq!(Address::default().0, [0u8; 64]);
}

#[test]
fn override_only_when_asked() {
    let mut args = Args { profile: String::from("p"), password: String::from("x"), now: false, json_path: String::from("f") };
    assert_eq!(args.timestamp_override(1664100000), None);
    args.now = true;
    assert_eq!(args.timestamp_override(1664100000), Some(1664100000 + TAI64_UNIX_EPOCH));
    let c = Config::default();
    assert_eq!(c.gas_limit, 0);
    assert_eq!(c.gas_price, None);
    assert_eq!(c.fixed_point, FixedPointPolicy::Micro);
    assert!(c.rusk_address.is_empty());
}
