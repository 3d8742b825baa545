//! The compaction filter: which records survive a compaction. The decision
//! depends on the record's bytes and the time alone.
use crate::base_meta_value_format::{meta_record_of, meta_record_parses, meta_valid_at, ParsedBaseMetaValue};
use crate::base_value_format::{data_type_of, stale_at, DataType};
use crate::buffer::buffer_from_slice;
use crate::clock::now_micros;
use crate::lists_meta_value_format::{
    lists_record_of, lists_record_parses, lists_valid_at, ParsedListsMetaValue,
};
use crate::strings_value_format::{
    lemma_string_record_round_trip, string_record_bytes, string_record_of, string_record_parses,
    ParsedStringsValue, StringRecord,
};
use vstd::prelude::*;

verus! {

/// Whether compaction keeps a record or drops it.
#[derive(Clone, Copy, Debug, PartialEq, Eq, Structural)]
pub enum FilterDecision {
    Keep,
    Remove,
}

/// `Keep` for a live record, `Remove` for a dead one.
pub open spec fn decision_for(live: bool) -> FilterDecision {
    if live {
        FilterDecision::Keep
    } else {
        FilterDecision::Remove
    }
}

/// What compaction does with a stored value at time `now`. An empty value, an
/// unknown type tag, or bytes that do not read as a record of their type are
/// dropped. A scalar string is kept until it expires; a container's metadata
/// (a list's, or that of any other type) is kept while it is valid: not
/// expired and not empty.
pub open spec fn filter_decision_at(value: Seq<u8>, now: u64) -> FilterDecision {
    if value.len() == 0 {
        FilterDecision::Remove
    } else {
        match data_type_of(value[0]) {
            None => FilterDecision::Remove,
            Some(DataType::Strings) => if string_record_parses(value) {
                decision_for(!stale_at(string_record_of(value).etime, now))
            } else {
                FilterDecision::Remove
            },
            Some(DataType::Lists) => if lists_record_parses(value) {
                decision_for(lists_valid_at(lists_record_of(value), now))
            } else {
                FilterDecision::Remove
            },
            Some(_) => if meta_record_parses(value) {
                decision_for(meta_valid_at(meta_record_of(value), now))
            } else {
                FilterDecision::Remove
            },
        }
    }
}

/// A scalar string that expires after `now` is kept at `now` and dropped
/// from its expiration time on.
pub proof fn lemma_string_kept_until_expiry(r: StringRecord, now: u64, later: u64)
    requires
        r.data_type == DataType::Strings,
        r.reserve.len() == 16,
        now < r.etime <= later,
    ensures
        filter_decision_at(string_record_bytes(r), now) == FilterDecision::Keep,
        filter_decision_at(string_record_bytes(r), later) == FilterDecision::Remove,
{
    lemma_string_record_round_trip(r);
}

/// An empty value, and a value whose first byte is no type tag, are dropped
/// whatever the time.
pub proof fn lemma_unreadable_values_removed(value: Seq<u8>, now: u64)
    requires
        value.len() == 0 || data_type_of(value[0]) is None,
    ensures
        filter_decision_at(value, now) == FilterDecision::Remove,
{
}

/// The decision for `value` when the clock reads `now`.
pub fn filter_value(value: &[u8], now: u64) -> (r: FilterDecision)
    ensures
        r == filter_decision_at(value@, now),
{
    if value.len() == 0 {
        return FilterDecision::Remove;
    }
    let data_type = match DataType::try_from_u8(value[0]) {
        Ok(t) => t,
        Err(_) => return FilterDecision::Remove,
    };
    match data_type {
        DataType::Strings => match ParsedStringsValue::new(buffer_from_slice(value)) {
            Ok(pv) => pv.filter_decision(now),
            Err(_) => FilterDecision::Remove,
        },
        DataType::Lists => match ParsedListsMetaValue::new(buffer_from_slice(value)) {
            Ok(pv) => if pv.is_valid_at(now) {
                FilterDecision::Keep
            } else {
                FilterDecision::Remove
            },
            Err(_) => FilterDecision::Remove,
        },
        _ => match ParsedBaseMetaValue::new(buffer_from_slice(value)) {
            Ok(pv) => if pv.is_valid_at(now) {
                FilterDecision::Keep
            } else {
                FilterDecision::Remove
            },
            Err(_) => FilterDecision::Remove,
        },
    }
}

/// The filter that the engine runs over each key and value of a compaction.
/// It holds no state: each decision rests on the value and the time alone.
#[derive(Debug)]
pub struct BaseMetaFilter;

/// Makes a fresh filter for each compaction.
#[derive(Debug)]
pub struct BaseMetaFilterFactory;

impl BaseMetaFilter {
    pub fn new() -> (r: Self) {
        BaseMetaFilter
    }

    /// The decision for one key and value at the current time. The level and
    /// the key do not enter into it.
    pub fn filter(&mut self, level: u32, key: &[u8], value: &[u8]) -> (r: FilterDecision)
        ensures
            exists|now: u64| r == filter_decision_at(value@, now),
            value@.len() == 0 ==> r == FilterDecision::Remove,
            value@.len() > 0 && data_type_of(value@[0]) is None ==> r == FilterDecision::Remove,
    {
        filter_value(value, now_micros())
    }
}

impl BaseMetaFilterFactory {
    pub fn new() -> (r: Self) {
        BaseMetaFilterFactory
    }

    /// A fresh filter for one compaction.
    pub fn create(&mut self) -> (r: BaseMetaFilter) {
        BaseMetaFilter
    }
}

} // verus!
