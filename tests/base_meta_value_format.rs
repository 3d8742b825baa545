use bytes::{Bytes, BytesMut};
use kiwi_storage::base_meta_value_format::{BaseMetaValue, ParsedBaseMetaValue};
use kiwi_storage::base_value_format::{DataType, StorageError};
use kiwi_storage::storage_define::{
    SUFFIX_RESERVE_LENGTH, TIMESTAMP_LENGTH, TYPE_LENGTH, VERSION_LENGTH,
};

fn read_u64(bytes: &[u8]) -> u64 {
    u64::from_le_bytes(bytes[0..8].try_into().unwrap())
}

fn parsed_hash_meta(count: u32) -> ParsedBaseMetaValue {
    let mut value = BaseMetaValue::new(Bytes::copy_from_slice(&count.to_le_bytes()));
    value.inner.data_type = DataType::Hashes;
    ParsedBaseMetaValue::new(value.encode()).unwrap()
}

#[test]
fn test_new_base_meta_value() {
    let value = BaseMetaValue::new(Bytes::from_static(b"test_value"));
    assert_eq!(value.inner.data_type, DataType::Nones);
    assert_eq!(&value.inner.user_value[..], b"test_value");
    assert_eq!(value.inner.version, 0);
}

#[test]
fn base_meta_value_format_test_update_version() {
    let mut value = BaseMetaValue::new(Bytes::from_static(b"test"));

    let first_version = value.update_version();
    assert!(first_version > 0);

    let second_version = value.update_version();
    assert!(second_version > first_version);

    value.inner.version = u64::MAX - 1;
    let large_version = value.update_version();
    assert_eq!(large_version, u64::MAX);
}

#[test]
fn base_meta_value_format_test_encode() {
    let test_value = "test";
    let mut value = BaseMetaValue::new(Bytes::from_static(test_value.as_bytes()));
    value.update_version();

    let encoded = value.encode();

    let expected_len = TYPE_LENGTH
        + test_value.len()
        + VERSION_LENGTH
        + SUFFIX_RESERVE_LENGTH
        + 2 * TIMESTAMP_LENGTH;
    assert_eq!(encoded.len(), expected_len);

    let mut pos = 0;

    assert_eq!(encoded[pos], DataType::Nones.as_u8());
    pos += TYPE_LENGTH;

    assert_eq!(&encoded[pos..pos + test_value.len()], test_value.as_bytes());
    pos += test_value.len();

    assert_eq!(read_u64(&encoded[pos..pos + VERSION_LENGTH]), value.inner.version);
    pos += VERSION_LENGTH;

    assert_eq!(
        &encoded[pos..pos + SUFFIX_RESERVE_LENGTH],
        &value.inner.reserve[..]
    );
    pos += SUFFIX_RESERVE_LENGTH;

    assert_eq!(read_u64(&encoded[pos..pos + TIMESTAMP_LENGTH]), value.inner.ctime);
    pos += TIMESTAMP_LENGTH;

    assert_eq!(read_u64(&encoded[pos..pos + TIMESTAMP_LENGTH]), value.inner.etime);
}

#[test]
fn test_empty_value() {
    let value = BaseMetaValue::new(Bytes::from_static(b""));
    let encoded = value.encode();

    let expected_len = TYPE_LENGTH + VERSION_LENGTH + SUFFIX_RESERVE_LENGTH + 2 * TIMESTAMP_LENGTH;
    assert_eq!(encoded.len(), expected_len);
}

#[test]
fn meta_record_round_trip() {
    let mut value = BaseMetaValue::new(Bytes::copy_from_slice(&7u32.to_le_bytes()));
    value.inner.data_type = DataType::ZSets;
    value.inner.version = 0x1122_3344_5566_7788;
    value.inner.set_ctime(11);
    value.inner.set_etime(22);
    value.inner.reserve[15] = 1;
    let parsed = ParsedBaseMetaValue::new(value.encode()).unwrap();
    assert_eq!(parsed.data_type(), DataType::ZSets);
    assert_eq!(parsed.count(), 7);
    assert_eq!(parsed.user_value(), &7u32.to_le_bytes()[..]);
    assert_eq!(parsed.version(), 0x1122_3344_5566_7788);
    assert_eq!(parsed.reserve(), &value.inner.reserve[..]);
    assert_eq!(parsed.ctime(), 11);
    assert_eq!(parsed.etime(), 22);
}

#[test]
fn meta_update_version_at_follows_the_rule() {
    let mut parsed = parsed_hash_meta(1);
    assert_eq!(parsed.update_version_at(100), 100);
    assert_eq!(parsed.update_version_at(100), 101);
    assert_eq!(parsed.update_version_at(50), 102);
    assert_eq!(parsed.update_version_at(500), 500);
    let again = ParsedBaseMetaValue::new(BytesMut::from(parsed.value())).unwrap();
    assert_eq!(again.version(), 500);
}

#[test]
fn meta_update_version_twice_increases() {
    let mut parsed = parsed_hash_meta(1);
    let first = parsed.update_version();
    let second = parsed.update_version();
    assert!(first > 0);
    assert!(second > first);
}

#[test]
fn meta_check_modify_count_bounds() {
    let mut parsed = parsed_hash_meta(5);
    assert!(parsed.check_modify_count(-5));
    assert!(!parsed.check_modify_count(-6));
    assert!(parsed.check_modify_count(i32::MAX - 5));
    assert!(!parsed.check_modify_count(i32::MAX - 4));
    assert!(!parsed.check_modify_count(i32::MAX));
    parsed.modify_count(-5);
    assert_eq!(parsed.count(), 0);
    parsed.modify_count(i32::MAX);
    assert_eq!(parsed.count(), i32::MAX);
    assert!(!parsed.check_modify_count(1));
    parsed.modify_count(1);
    assert_eq!(parsed.count(), i32::MAX);
    let again = ParsedBaseMetaValue::new(BytesMut::from(parsed.value())).unwrap();
    assert_eq!(again.count(), i32::MAX);
}

#[test]
fn meta_check_set_count() {
    let parsed = parsed_hash_meta(0);
    assert!(parsed.check_set_count(0));
    assert!(parsed.check_set_count(i32::MAX as usize));
    assert!(!parsed.check_set_count(i32::MAX as usize + 1));
}

#[test]
fn container_lifecycle() {
    let mut parsed = parsed_hash_meta(9);
    parsed.set_etime(1234);
    parsed.set_ctime(55);
    let version = parsed.initial_meta_value();
    assert_eq!(parsed.count(), 0);
    assert!(version > 0);
    assert_eq!(parsed.version(), version);
    assert_eq!(parsed.etime(), 0);
    assert_eq!(parsed.ctime(), 0);
    assert!(!parsed.is_valid());

    assert!(parsed.check_modify_count(3));
    parsed.modify_count(3);
    assert!(parsed.is_valid());
    assert_eq!(parsed.count(), 3);

    assert!(parsed.check_modify_count(-3));
    parsed.modify_count(-3);
    assert!(!parsed.is_valid());

    let again = ParsedBaseMetaValue::new(BytesMut::from(parsed.value())).unwrap();
    assert_eq!(again.count(), 0);
    assert_eq!(again.version(), version);
}

#[test]
fn meta_validity_and_staleness() {
    let mut parsed = parsed_hash_meta(2);
    parsed.set_etime(1000);
    assert!(parsed.is_valid_at(999));
    assert!(!parsed.is_valid_at(1000));
    assert!(parsed.is_stale_at(1000));
    parsed.set_etime(0);
    assert!(parsed.is_valid_at(u64::MAX));
}

#[test]
fn meta_minimum_length() {
    let mut short = [0u8; 44];
    short[0] = DataType::Hashes.as_u8();
    assert!(matches!(
        ParsedBaseMetaValue::new(BytesMut::from(&short[..])),
        Err(StorageError::InvalidFormat(_))
    ));
    let mut exact = [0u8; 45];
    exact[0] = DataType::Hashes.as_u8();
    exact[1] = 3;
    let parsed = ParsedBaseMetaValue::new(BytesMut::from(&exact[..])).unwrap();
    assert_eq!(parsed.count(), 3);
    assert_eq!(parsed.user_value(), &[3, 0, 0, 0]);
}

#[test]
fn meta_unknown_type_tag() {
    let mut bytes = [0u8; 45];
    bytes[0] = 6;
    assert!(matches!(
        ParsedBaseMetaValue::new(BytesMut::from(&bytes[..])),
        Err(StorageError::InvalidFormat(_))
    ));
}
