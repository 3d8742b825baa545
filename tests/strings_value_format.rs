use bytes::{Bytes, BytesMut};
use kiwi_storage::base_value_format::{DataType, StorageError};
use kiwi_storage::storage_define::{SUFFIX_RESERVE_LENGTH, TIMESTAMP_LENGTH, TYPE_LENGTH};
use kiwi_storage::strings_value_format::{ParsedStringsValue, StringValue};

#[test]
fn test_new_string_value() {
    let value = StringValue::new(Bytes::from_static(b"test_value"));
    assert_eq!(value.inner.data_type, DataType::Strings);
    assert_eq!(&value.inner.user_value[..], b"test_value");
}

#[test]
fn strings_value_format_test_encode() {
    let test_value = "hello";
    let value = StringValue::new(Bytes::from_static(test_value.as_bytes()));
    let encoded = value.encode();

    let expected_len =
        TYPE_LENGTH + test_value.len() + SUFFIX_RESERVE_LENGTH + 2 * TIMESTAMP_LENGTH;
    assert_eq!(encoded.len(), expected_len);

    assert_eq!(encoded[0], DataType::Strings.as_u8());

    assert_eq!(&encoded[1..6], test_value.as_bytes());

    let reserve_start = 1 + test_value.len();
    let reserve_end = reserve_start + SUFFIX_RESERVE_LENGTH;
    assert!(encoded[reserve_start..reserve_end].iter().all(|&x| x == 0));

    let ctime_start = reserve_end;
    let ctime_bytes: [u8; 8] = encoded[ctime_start..ctime_start + 8].try_into().unwrap();
    assert_eq!(u64::from_le_bytes(ctime_bytes), value.inner.ctime);

    let etime_start = ctime_start + 8;
    let etime_bytes: [u8; 8] = encoded[etime_start..etime_start + 8].try_into().unwrap();
    assert_eq!(u64::from_le_bytes(etime_bytes), value.inner.etime);
}

#[test]
fn test_empty_string() {
    let value = StringValue::new(Bytes::from_static(b""));
    let encoded = value.encode();

    assert_eq!(
        encoded.len(),
        TYPE_LENGTH + SUFFIX_RESERVE_LENGTH + 2 * TIMESTAMP_LENGTH
    );
    assert_eq!(encoded[0], DataType::Strings.as_u8());
}

#[test]
fn test_with_special_strings() {
    let test_cases = vec![
        "Hello, World!",
        "123456789",
        "!@#$%^&*()",
        "中文测试",
        "\n\r\t",
        "🦀",
    ];

    for test_str in test_cases {
        let value = StringValue::new(Bytes::from_static(test_str.as_bytes()));
        let encoded = value.encode();

        assert_eq!(encoded[0], DataType::Strings.as_u8());
        assert_eq!(
            &encoded[1..1 + test_str.as_bytes().len()],
            test_str.as_bytes()
        );

        let expected_len = TYPE_LENGTH
            + test_str.as_bytes().len()
            + SUFFIX_RESERVE_LENGTH
            + 2 * TIMESTAMP_LENGTH;
        assert_eq!(encoded.len(), expected_len);
    }
}

#[test]
fn string_record_round_trip() {
    let mut value = StringValue::new(Bytes::from_static(b"payload"));
    value.inner.set_ctime(0x0102_0304_0506_0708);
    value.inner.set_etime(42);
    value.inner.reserve[3] = 7;
    let parsed = ParsedStringsValue::new(value.encode()).unwrap();
    assert_eq!(parsed.data_type(), DataType::Strings);
    assert_eq!(parsed.user_value(), b"payload");
    assert_eq!(parsed.reserve(), &value.inner.reserve[..]);
    assert_eq!(parsed.ctime(), 0x0102_0304_0506_0708);
    assert_eq!(parsed.etime(), 42);
}

#[test]
fn string_encode_writes_little_endian_times() {
    let mut value = StringValue::new(Bytes::from_static(b"x"));
    value.inner.set_ctime(0x0102_0304_0506_0708);
    value.inner.set_etime(1);
    let encoded = value.encode();
    assert_eq!(&encoded[18..26], &[8, 7, 6, 5, 4, 3, 2, 1]);
    assert_eq!(&encoded[26..34], &[1, 0, 0, 0, 0, 0, 0, 0]);
}

#[test]
fn string_minimum_length() {
    let short = BytesMut::from(&[0u8; 32][..]);
    assert!(matches!(
        ParsedStringsValue::new(short),
        Err(StorageError::InvalidFormat(_))
    ));
    let exact = BytesMut::from(&[0u8; 33][..]);
    let parsed = ParsedStringsValue::new(exact).unwrap();
    assert_eq!(parsed.user_value().len(), 0);
}

#[test]
fn string_unknown_type_tag() {
    let mut bytes = [0u8; 40];
    bytes[0] = 200;
    assert!(matches!(
        ParsedStringsValue::new(BytesMut::from(&bytes[..])),
        Err(StorageError::InvalidFormat(_))
    ));
}

#[test]
fn string_setters_patch_the_buffer() {
    let value = StringValue::new(Bytes::from_static(b"abc"));
    let mut parsed = ParsedStringsValue::new(value.encode()).unwrap();
    parsed.set_etime(99);
    parsed.set_ctime(77);
    assert_eq!(parsed.etime(), 99);
    assert_eq!(parsed.ctime(), 77);
    assert_eq!(parsed.user_value(), b"abc");
    assert!(parsed.is_stale_at(99));
    assert!(!parsed.is_stale_at(98));
}

#[test]
fn string_strip_suffix_leaves_payload() {
    let mut value = StringValue::new(Bytes::from_static(b"hello"));
    value.inner.set_etime(5);
    let mut parsed = ParsedStringsValue::new(value.encode()).unwrap();
    parsed.strip_suffix();
    assert_eq!(parsed.value(), b"hello");
}
