use warehouse::oid::Oid;

#[test]
fn parse_accepts_24_hex_digits() {
    let id = Oid::parse("00000000000000000000000a").unwrap();
    assert_eq!(id.code, 10);
    let id = Oid::parse("ffffffffffffffffffffffff").unwrap();
    assert_eq!(id.code, (1u128 << 96) - 1);
    let id = Oid::parse("6349e54bf0d2d96b534cbc29").unwrap();
    assert_eq!(id.code, 0x6349e54bf0d2d96b534cbc29);
    let upper = Oid::parse("6349E54BF0D2D96B534CBC29").unwrap();
    assert_eq!(upper, id);
}

#[test]
fn parse_rejects_malformed_ids() {
    assert!(Oid::parse("").is_none());
    assert!(Oid::parse("6349e54bf0d2d96b534cbc2").is_none());
    assert!(Oid::parse("6349e54bf0d2d96b534cbc299").is_none());
    assert!(Oid::parse("6349e54bf0d2d96b534cbc2g").is_none());
    assert!(Oid::parse("6349e54b-0d2d96b534cbc29").is_none());
}

#[test]
fn to_hex_writes_24_lowercase_digits() {
    let id = Oid { code: 10 };
    assert_eq!(id.to_hex(), "00000000000000000000000a");
    let id = Oid { code: 0x6349e54bf0d2d96b534cbc29 };
    assert_eq!(id.to_hex(), "6349e54bf0d2d96b534cbc29");
}

#[test]
fn parse_inverts_to_hex() {
    let id = Oid { code: 0x1234abcd1234abcd1234abcd };
    assert_eq!(Oid::parse(id.to_hex().as_str()), Some(id));
}
