use bytes::{Bytes, BytesMut};
use kiwi_storage::base_data_value_format::{BaseDataValue, ParsedBaseDataValue};
use kiwi_storage::base_value_format::StorageError;

#[test]
fn data_record_round_trip() {
    let mut value = BaseDataValue::new(Bytes::from_static(b"field-value"));
    value.inner.set_ctime(0xABCD);
    let encoded = value.encode();
    assert_eq!(encoded.len(), 11 + 24);
    assert_eq!(&encoded[..11], b"field-value");
    let parsed = ParsedBaseDataValue::new(encoded).unwrap();
    assert_eq!(parsed.user_value(), b"field-value");
    assert_eq!(parsed.reserve(), &[0u8; 16][..]);
    assert_eq!(parsed.ctime(), 0xABCD);
}

#[test]
fn data_minimum_length() {
    assert!(matches!(
        ParsedBaseDataValue::new(BytesMut::from(&[0u8; 23][..])),
        Err(StorageError::InvalidFormat(_))
    ));
    let parsed = ParsedBaseDataValue::new(BytesMut::from(&[0u8; 24][..])).unwrap();
    assert_eq!(parsed.user_value().len(), 0);
}

#[test]
fn data_payload_starting_with_any_byte_parses() {
    let value = BaseDataValue::new(Bytes::from_static(&[0xFF, 1, 2]));
    let parsed = ParsedBaseDataValue::new(value.encode()).unwrap();
    assert_eq!(parsed.user_value(), &[0xFF, 1, 2]);
}

#[test]
fn data_set_ctime_and_strip_suffix() {
    let value = BaseDataValue::new(Bytes::from_static(b"elem"));
    let mut parsed = ParsedBaseDataValue::new(value.encode()).unwrap();
    parsed.set_ctime(31);
    assert_eq!(parsed.ctime(), 31);
    let again = ParsedBaseDataValue::new(BytesMut::from(parsed.value())).unwrap();
    assert_eq!(again.ctime(), 31);
    parsed.strip_suffix();
    assert_eq!(parsed.value(), b"elem");
}
