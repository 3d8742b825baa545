//! Value encodings and liveness rules of a Redis-style storage layer that
//! keeps every logical value in one byte string of an ordered key-value
//! engine: scalar strings, element values of containers, container metadata,
//! list metadata, and the compaction filter that drops dead records.
pub mod base_data_value_format;
pub mod base_filter;
pub mod base_meta_value_format;
pub mod base_value_format;
pub mod buffer;
pub mod clock;
pub mod lists_meta_value_format;
pub mod storage_define;
pub mod strings_value_format;
