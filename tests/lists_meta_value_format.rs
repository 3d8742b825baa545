use bytes::{Bytes, BytesMut};
use kiwi_storage::base_value_format::{DataType, StorageError};
use kiwi_storage::lists_meta_value_format::{
    ListsMetaValue, ParsedListsMetaValue, INITIAL_LEFT_INDEX, INITIAL_RIGHT_INDEX,
};
use kiwi_storage::storage_define::{
    LIST_VALUE_INDEX_LENGTH, SUFFIX_RESERVE_LENGTH, TIMESTAMP_LENGTH, TYPE_LENGTH, VERSION_LENGTH,
};

fn parsed_list_meta(count: u32) -> ParsedListsMetaValue {
    let value = ListsMetaValue::new(Bytes::copy_from_slice(&count.to_le_bytes()));
    ParsedListsMetaValue::new(value.encode()).unwrap()
}

#[test]
fn test_new_lists_meta_value() {
    let value = ListsMetaValue::new(Bytes::from_static(b"test_value"));
    assert_eq!(value.left_index(), INITIAL_LEFT_INDEX);
    assert_eq!(value.right_index(), INITIAL_RIGHT_INDEX);
}

#[test]
fn lists_meta_value_format_test_encode() {
    let value = ListsMetaValue::new(Bytes::from_static(b"test"));
    let encoded = value.encode();

    let expected_len = TYPE_LENGTH
        + "test".len()
        + VERSION_LENGTH
        + 2 * LIST_VALUE_INDEX_LENGTH
        + SUFFIX_RESERVE_LENGTH
        + 2 * TIMESTAMP_LENGTH;
    assert_eq!(encoded.len(), expected_len);
    assert_eq!(encoded.len(), 61);

    assert_eq!(encoded[0], DataType::Lists.as_u8());
    assert_eq!(&encoded[1..5], b"test");
}

#[test]
fn lists_meta_value_format_test_update_version() {
    let mut value = ListsMetaValue::new(Bytes::from_static(b"test"));
    let first_version = value.update_version();

    assert!(first_version > 0);

    let second_version = value.update_version();

    assert!(second_version > first_version);
}

#[test]
fn test_index_modifications() {
    let mut value = ListsMetaValue::new(Bytes::from_static(b"test"));

    let left_before = value.left_index();
    value.modify_left_index(1);
    assert_eq!(value.left_index(), left_before - 1);

    let right_before = value.right_index();
    value.modify_right_index(1);
    assert_eq!(value.right_index(), right_before + 1);
}

#[test]
fn test_consecutive_index_modifications() {
    let mut value = ListsMetaValue::new(Bytes::from_static(b"test"));

    value.modify_left_index(1);
    value.modify_left_index(2);
    assert_eq!(value.left_index(), INITIAL_LEFT_INDEX - 3);

    value.modify_right_index(1);
    value.modify_right_index(2);
    assert_eq!(value.right_index(), INITIAL_RIGHT_INDEX + 3);
}

#[test]
fn lists_record_round_trip() {
    let mut value = ListsMetaValue::new(Bytes::copy_from_slice(&4u32.to_le_bytes()));
    value.modify_left_index(10);
    value.modify_right_index(20);
    let version = value.update_version();
    let parsed = ParsedListsMetaValue::new(value.encode()).unwrap();
    assert_eq!(parsed.data_type(), DataType::Lists);
    assert_eq!(parsed.count(), 4);
    assert_eq!(parsed.version(), version);
    assert_eq!(parsed.left_index(), INITIAL_LEFT_INDEX - 10);
    assert_eq!(parsed.right_index(), INITIAL_RIGHT_INDEX + 20);
    assert_eq!(parsed.reserve(), &[0u8; 16][..]);
    assert_eq!(parsed.ctime(), 0);
    assert_eq!(parsed.etime(), 0);
}

#[test]
fn lists_index_symmetry_after_initial_meta_value() {
    let mut parsed = parsed_list_meta(2);
    parsed.set_left_index(5);
    parsed.set_right_index(6);
    let version = parsed.initial_meta_value();
    assert!(version > 0);
    assert_eq!(parsed.count(), 0);
    assert_eq!(parsed.left_index(), INITIAL_LEFT_INDEX);
    assert_eq!(parsed.right_index(), INITIAL_RIGHT_INDEX);
    assert!(!parsed.is_valid());

    let n = 7;
    parsed.modify_left_index(n);
    parsed.modify_right_index(n);
    assert_eq!(INITIAL_LEFT_INDEX - parsed.left_index(), n);
    assert_eq!(parsed.right_index() - INITIAL_RIGHT_INDEX, n);

    parsed.set_left_index(INITIAL_LEFT_INDEX);
    parsed.modify_left_index(1);
    parsed.modify_left_index(2);
    assert_eq!(parsed.left_index(), INITIAL_LEFT_INDEX - 3);
    parsed.set_right_index(INITIAL_RIGHT_INDEX);
    parsed.modify_right_index(1);
    parsed.modify_right_index(2);
    assert_eq!(parsed.right_index(), INITIAL_RIGHT_INDEX + 3);

    let again = ParsedListsMetaValue::new(BytesMut::from(parsed.value())).unwrap();
    assert_eq!(again.left_index(), INITIAL_LEFT_INDEX - 3);
    assert_eq!(again.right_index(), INITIAL_RIGHT_INDEX + 3);
    assert_eq!(again.version(), version);
}

#[test]
fn lists_count_and_validity() {
    let mut parsed = parsed_list_meta(0);
    assert!(!parsed.is_valid_at(1));
    parsed.modify_count(3);
    assert_eq!(parsed.count(), 3);
    assert!(parsed.is_valid_at(1));
    parsed.set_etime(10);
    assert!(parsed.is_valid_at(9));
    assert!(!parsed.is_valid_at(10));
    parsed.set_count(u32::MAX as u64);
    parsed.set_ctime(8);
    let again = ParsedListsMetaValue::new(BytesMut::from(parsed.value())).unwrap();
    assert_eq!(again.count(), u32::MAX as u64);
    assert_eq!(again.etime(), 10);
    assert_eq!(again.ctime(), 8);
}

#[test]
fn lists_update_version_at() {
    let mut parsed = parsed_list_meta(1);
    assert_eq!(parsed.update_version_at(7), 7);
    assert_eq!(parsed.update_version_at(7), 8);
    let again = ParsedListsMetaValue::new(BytesMut::from(parsed.value())).unwrap();
    assert_eq!(again.version(), 8);
}

#[test]
fn lists_minimum_length() {
    let mut short = [0u8; 60];
    short[0] = DataType::Lists.as_u8();
    assert!(matches!(
        ParsedListsMetaValue::new(BytesMut::from(&short[..])),
        Err(StorageError::InvalidFormat(_))
    ));
    let mut exact = [0u8; 61];
    exact[0] = DataType::Lists.as_u8();
    let parsed = ParsedListsMetaValue::new(BytesMut::from(&exact[..])).unwrap();
    assert_eq!(parsed.user_value().len(), 4);
    assert_eq!(parsed.count(), 0);
}
