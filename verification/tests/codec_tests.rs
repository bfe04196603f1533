use attribute_store::codec::IntoProto;
use attribute_store::errors::FieldError;
use attribute_store::values::{EntityId, EntityVersion};

#[test]
fn can_encode_ping_request() {
    // A record with every field at its default encodes to no bytes at all,
    // and the empty byte string encodes to the empty text form.
    assert_eq!(EntityId(0).encode(), "");
}

#[test]
fn can_decode_ping_request() {
    assert_eq!(EntityId::decode("").unwrap(), EntityId(0));
}

#[test]
fn encode_produces_wire_form() {
    // record [0x08, 0x01], base64url encoded
    assert_eq!(EntityId(1).encode(), "CAE=");
    assert_eq!(EntityVersion(1).encode(), "CAE=");
    // record [0x08, 0xac, 0x02] for 300
    assert_eq!(EntityId(300).encode(), "CKwC");
    let as_string: String = EntityId(1).into_proto();
    assert_eq!(as_string, "CAE=");
}

#[test]
fn entity_id_round_trips() {
    for id in [
        0i64,
        1,
        5,
        127,
        128,
        300,
        65535,
        1 << 40,
        i64::MAX,
        -1,
        i64::MIN,
    ] {
        let encoded = EntityId(id).encode();
        assert_eq!(EntityId::decode(&encoded).unwrap(), EntityId(id));
    }
}

#[test]
fn decode_rejects_garbage() {
    assert_eq!(EntityId::decode("!!!").unwrap_err(), FieldError::InvalidEntityId);
    // valid base64url, but not a record the encoder can produce
    assert_eq!(EntityId::decode("AQ==").unwrap_err(), FieldError::InvalidEntityId);
    // a record with trailing bytes after the varint
    assert_eq!(EntityId::decode("CAEB").unwrap_err(), FieldError::InvalidEntityId);
}
