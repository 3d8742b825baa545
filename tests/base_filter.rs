use bytes::Bytes;
use kiwi_storage::base_filter::{filter_value, BaseMetaFilter, BaseMetaFilterFactory, FilterDecision};
use kiwi_storage::base_meta_value_format::BaseMetaValue;
use kiwi_storage::base_value_format::DataType;
use kiwi_storage::lists_meta_value_format::ListsMetaValue;
use kiwi_storage::strings_value_format::StringValue;

#[test]
fn test_strings_filter() {
    let mut filter = BaseMetaFilter::new();

    let mut string_val = StringValue::new(Bytes::from_static(b"filter_val"));
    let ttl = 1_000_000; // one second, in microseconds
    string_val.inner.set_relative_timestamp(ttl);

    let decision = filter.filter(0, b"filter_key", &string_val.encode());
    assert!(matches!(decision, FilterDecision::Keep));

    // Two seconds later.
    let later = string_val.inner.etime + 1_000_000;
    let decision = filter_value(&string_val.encode(), later);
    assert!(matches!(decision, FilterDecision::Remove));
}

#[test]
fn filter_string_expiry_boundary() {
    let mut string_val = StringValue::new(Bytes::from_static(b"v"));
    string_val.inner.set_relative_timestamp_at(5_000_000, 1_000_000);
    assert_eq!(string_val.inner.etime, 6_000_000);
    let encoded = string_val.encode();
    assert_eq!(filter_value(&encoded, 5_000_000), FilterDecision::Keep);
    assert_eq!(filter_value(&encoded, 5_999_999), FilterDecision::Keep);
    assert_eq!(filter_value(&encoded, 6_000_000), FilterDecision::Remove);
    let never = StringValue::new(Bytes::from_static(b"v")).encode();
    assert_eq!(filter_value(&never, u64::MAX), FilterDecision::Keep);
}

#[test]
fn filter_empty_and_unknown_values() {
    let mut filter = BaseMetaFilterFactory::new().create();
    assert_eq!(filter.filter(0, b"k", b""), FilterDecision::Remove);
    assert_eq!(filter_value(b"", 0), FilterDecision::Remove);
    let unknown = [42u8; 64];
    assert_eq!(filter.filter(1, b"k", &unknown), FilterDecision::Remove);
    assert_eq!(filter_value(&unknown, 0), FilterDecision::Remove);
}

#[test]
fn filter_short_string_is_removed() {
    let mut short = [0u8; 20];
    short[0] = DataType::Strings.as_u8();
    assert_eq!(filter_value(&short, 0), FilterDecision::Remove);
}

#[test]
fn filter_container_metadata() {
    let mut live = BaseMetaValue::new(Bytes::copy_from_slice(&2u32.to_le_bytes()));
    live.inner.data_type = DataType::Hashes;
    assert_eq!(filter_value(&live.encode(), 10), FilterDecision::Keep);
    live.inner.set_etime(10);
    assert_eq!(filter_value(&live.encode(), 9), FilterDecision::Keep);
    assert_eq!(filter_value(&live.encode(), 10), FilterDecision::Remove);

    let mut empty = BaseMetaValue::new(Bytes::copy_from_slice(&0u32.to_le_bytes()));
    empty.inner.data_type = DataType::Sets;
    assert_eq!(filter_value(&empty.encode(), 10), FilterDecision::Remove);
}

#[test]
fn filter_list_metadata() {
    let live = ListsMetaValue::new(Bytes::copy_from_slice(&1u32.to_le_bytes()));
    assert_eq!(filter_value(&live.encode(), 3), FilterDecision::Keep);
    let empty = ListsMetaValue::new(Bytes::copy_from_slice(&0u32.to_le_bytes()));
    assert_eq!(filter_value(&empty.encode(), 3), FilterDecision::Remove);
    let truncated = &live.encode()[..50];
    assert_eq!(filter_value(truncated, 3), FilterDecision::Remove);
}
