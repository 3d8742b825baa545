//! Widths, in bytes, of the fixed fields of every record layout.
use vstd::prelude::*;

verus! {

/// The type tag that opens every record but the bare data value.
pub const TYPE_LENGTH: usize = 1;

/// Reserved region kept for future fields; written as zeros.
pub const SUFFIX_RESERVE_LENGTH: usize = 16;

/// One timestamp (creation or expiration), microseconds since the epoch.
pub const TIMESTAMP_LENGTH: usize = 8;

/// The logical version of a container.
pub const VERSION_LENGTH: usize = 8;

/// The element count of a container.
pub const BASE_META_VALUE_COUNT_LENGTH: usize = 4;

/// One of the two growth indices of a list.
pub const LIST_VALUE_INDEX_LENGTH: usize = 8;

/// `reserve | ctime | etime`, the suffix of a scalar string record.
pub const STRING_VALUE_SUFFIXLENGTH: usize = 32;

/// `reserve | ctime`, the suffix of a bare data record.
pub const BASE_DATA_VALUE_SUFFIX_LENGTH: usize = 24;

/// `version | reserve | ctime | etime`, the suffix of a metadata record.
pub const BASE_META_VALUE_SUFFIX_LENGTH: usize = 40;

/// `version | left index | right index | reserve | ctime | etime`, the
/// suffix of a list metadata record.
pub const LISTS_META_VALUE_SUFFIX_LENGTH: usize = 56;

/// Shortest scalar string record: type tag and suffix.
pub const STRING_VALUE_MIN_LENGTH: usize = 33;

/// Shortest metadata record: type tag, count and suffix.
pub const BASE_META_VALUE_MIN_LENGTH: usize = 45;

/// Shortest list metadata record: type tag, count and suffix.
pub const LISTS_META_VALUE_MIN_LENGTH: usize = 61;

} // verus!
