//! The scalar string record:
//! `type(1) | value(var) | reserve(16) | ctime(8) | etime(8)`.
use crate::base_filter::{decision_for, FilterDecision};
use crate::base_value_format::{
    data_type_of, lemma_le_round_trip, lemma_patched, le64, read_u64_at, stale_at,
    type_tag, u64_at, DataType, InternalValue, ParsedInternalValue, Result, StorageError,
};
use crate::buffer::{
    buffer_advance, buffer_as_slice, buffer_len, buffer_put_slice, buffer_put_u64_le,
    buffer_put_u8, buffer_truncate, buffer_with_capacity, bytes_as_slice, bytes_mut_contents,
};
use crate::clock::now_micros;
use crate::storage_define::{STRING_VALUE_MIN_LENGTH, STRING_VALUE_SUFFIXLENGTH, TYPE_LENGTH};
use bytes::{Bytes, BytesMut};
use vstd::prelude::*;

verus! {

/// What a scalar string record holds.
pub struct StringRecord {
    pub data_type: DataType,
    pub user_value: Seq<u8>,
    pub reserve: Seq<u8>,
    pub ctime: u64,
    pub etime: u64,
}

/// The bytes of a scalar string record.
pub open spec fn string_record_bytes(r: StringRecord) -> Seq<u8> {
    seq![type_tag(r.data_type)] + r.user_value + r.reserve + le64(r.ctime) + le64(r.etime)
}

/// Which byte strings read as a scalar string record: a known type tag and
/// room for the fixed fields.
pub open spec fn string_record_parses(b: Seq<u8>) -> bool {
    b.len() >= 33 && data_type_of(b[0]) is Some
}

/// The record that a byte string reads as.
pub open spec fn string_record_of(b: Seq<u8>) -> StringRecord {
    StringRecord {
        data_type: data_type_of(b[0]).unwrap(),
        user_value: b.subrange(1, b.len() - 32),
        reserve: b.subrange(b.len() - 32, b.len() - 16),
        ctime: u64_at(b, b.len() - 16),
        etime: u64_at(b, b.len() - 8),
    }
}

/// Encoding a scalar string record and reading it back gives every field
/// as it was.
pub proof fn lemma_string_record_round_trip(r: StringRecord)
    requires
        r.reserve.len() == 16,
    ensures
        string_record_parses(string_record_bytes(r)),
        string_record_of(string_record_bytes(r)) == r,
{
    let b = string_record_bytes(r);
    let n = r.user_value.len() as int;
    lemma_le_round_trip(r.ctime, 0);
    lemma_le_round_trip(r.etime, 0);
    crate::base_value_format::lemma_type_tag_round_trip(r.data_type);
    assert(b.len() == n + 33);
    assert(b[0] == type_tag(r.data_type));
    assert(b.subrange(1, n + 1) =~= r.user_value);
    assert(b.subrange(n + 1, n + 17) =~= r.reserve);
    assert(b.subrange(n + 17, n + 25) =~= le64(r.ctime));
    assert(b.subrange(n + 25, n + 33) =~= le64(r.etime));
}

/// A buffer one byte short of the fixed fields is refused; one of exactly
/// their length, with a known type tag, reads as a record with an empty
/// payload.
pub proof fn lemma_string_minimum_length(b: Seq<u8>)
    ensures
        b.len() == 32 ==> !string_record_parses(b),
        b.len() == 33 && data_type_of(b[0]) is Some ==> string_record_parses(b)
            && string_record_of(b).user_value.len() == 0,
{
}

/// A scalar string as a command handler builds it.
#[derive(Debug)]
pub struct StringValue {
    pub inner: InternalValue,
}

impl StringValue {
    /// What the value will be stored as.
    pub open spec fn record(&self) -> StringRecord {
        StringRecord {
            data_type: DataType::Strings,
            user_value: self.inner.payload(),
            reserve: self.inner.reserve@,
            ctime: self.inner.ctime,
            etime: self.inner.etime,
        }
    }

    pub fn new(user_value: Bytes) -> (r: Self)
        ensures
            r.inner.data_type == DataType::Strings,
            r.inner.user_value == user_value,
            r.inner.reserve@ == crate::base_value_format::zero_reserve(),
            r.inner.version == 0,
            r.inner.ctime == 0,
            r.inner.etime == 0,
    {
        StringValue { inner: InternalValue::new(DataType::Strings, user_value) }
    }

    /// The record's bytes: type tag, payload, reserve, ctime and etime.
    pub fn encode(&self) -> (r: BytesMut)
        requires
            self.inner.payload().len() + 33 <= isize::MAX,
        ensures
            bytes_mut_contents(r) == string_record_bytes(self.record()),
    {
        proof {
            lemma_le_round_trip(self.inner.ctime, 0);
            lemma_le_round_trip(self.inner.etime, 0);
        }
        let value = bytes_as_slice(&self.inner.user_value);
        let mut buf = buffer_with_capacity(value.len() + 33);
        buffer_put_u8(&mut buf, DataType::Strings.as_u8());
        buffer_put_slice(&mut buf, value);
        buffer_put_slice(&mut buf, self.inner.reserve.as_slice());
        buffer_put_u64_le(&mut buf, self.inner.ctime);
        buffer_put_u64_le(&mut buf, self.inner.etime);
        assert(bytes_mut_contents(buf) =~= string_record_bytes(self.record()));
        buf
    }
}

/// A scalar string record read from storage.
pub struct ParsedStringsValue {
    base: ParsedInternalValue,
}

impl View for ParsedStringsValue {
    type V = Seq<u8>;

    /// The bytes of the buffer.
    closed spec fn view(&self) -> Seq<u8> {
        self.base.bytes()
    }
}

impl ParsedStringsValue {
    /// The buffer reads as a record, and the ranges and the type stand where
    /// the layout puts them.
    pub closed spec fn layout(&self) -> bool {
        let b = self.base.bytes();
        &&& string_record_parses(b)
        &&& data_type_of(b[0]) == Some(self.base.data_type)
        &&& self.base.user_value_range.start == 1
        &&& self.base.user_value_range.end == b.len() - 32
        &&& self.base.reserve_range.start == b.len() - 32
        &&& self.base.reserve_range.end == b.len() - 16
        &&& self.base.version == 0
    }

    /// The creation time held beside the buffer.
    pub closed spec fn held_ctime(&self) -> u64 {
        self.base.ctime
    }

    /// The expiration time held beside the buffer.
    pub closed spec fn held_etime(&self) -> u64 {
        self.base.etime
    }

    /// The record: the layout holds, and the times held beside the buffer are
    /// those in it.
    pub open spec fn wf(&self) -> bool {
        &&& self.layout()
        &&& self.held_ctime() == string_record_of(self@).ctime
        &&& self.held_etime() == string_record_of(self@).etime
    }

    /// The record that the buffer holds.
    pub open spec fn record(&self) -> StringRecord {
        string_record_of(self@)
    }

    /// Reads a record; a buffer shorter than the fixed fields, or with an
    /// unknown type tag, is an invalid format.
    pub fn new(internal_value: BytesMut) -> (r: Result<Self>)
        ensures
            match r {
                Ok(p) => {
                    &&& string_record_parses(bytes_mut_contents(internal_value))
                    &&& p.wf()
                    &&& p@ == bytes_mut_contents(internal_value)
                },
                Err(e) => {
                    &&& !string_record_parses(bytes_mut_contents(internal_value))
                    &&& e is InvalidFormat
                },
            },
    {
        let value = internal_value;
        let n = buffer_len(&value);
        if n < STRING_VALUE_MIN_LENGTH {
            return Err(StorageError::InvalidFormat("invalid string value length".to_string()));
        }
        let b = buffer_as_slice(&value);
        let data_type = match DataType::try_from_u8(b[0]) {
            Ok(t) => t,
            Err(e) => return Err(e),
        };
        let ctime = read_u64_at(b, n - 16);
        let etime = read_u64_at(b, n - 8);
        let user_value_range = TYPE_LENGTH..n - STRING_VALUE_SUFFIXLENGTH;
        let reserve_range = n - STRING_VALUE_SUFFIXLENGTH..n - 16;
        Ok(ParsedStringsValue {
            base: ParsedInternalValue::new(
                value,
                data_type,
                user_value_range,
                reserve_range,
                0,
                ctime,
                etime,
            ),
        })
    }

    pub fn data_type(&self) -> (r: DataType)
        requires
            self.wf(),
        ensures
            r == self.record().data_type,
    {
        self.base.data_type
    }

    /// The whole buffer, as it would be written back.
    pub fn value(&self) -> (r: &[u8])
        ensures
            r@ == self@,
    {
        buffer_as_slice(&self.base.value)
    }

    pub fn user_value(&self) -> (r: &[u8])
        requires
            self.wf(),
        ensures
            r@ == self.record().user_value,
    {
        let b = buffer_as_slice(&self.base.value);
        &b[self.base.user_value_range.start..self.base.user_value_range.end]
    }

    pub fn reserve(&self) -> (r: &[u8])
        requires
            self.wf(),
        ensures
            r@ == self.record().reserve,
    {
        let b = buffer_as_slice(&self.base.value);
        &b[self.base.reserve_range.start..self.base.reserve_range.end]
    }

    pub fn ctime(&self) -> (r: u64)
        requires
            self.wf(),
        ensures
            r == self.record().ctime,
    {
        self.base.ctime
    }

    pub fn etime(&self) -> (r: u64)
        requires
            self.wf(),
        ensures
            r == self.record().etime,
    {
        self.base.etime
    }

    /// Whether the record has expired by `now`.
    pub fn is_stale_at(&self, now: u64) -> (r: bool)
        requires
            self.wf(),
        ensures
            r == stale_at(self.record().etime, now),
    {
        self.base.is_stale_at(now)
    }

    /// Whether the record has expired by the current time.
    pub fn is_stale(&self) -> (r: bool)
        requires
            self.wf(),
        ensures
            self.record().etime == 0 ==> !r,
    {
        self.is_stale_at(now_micros())
    }

    /// What compaction does with this record at time `current_time`: drop it
    /// once stale, keep it before.
    pub fn filter_decision(&self, current_time: u64) -> (r: FilterDecision)
        requires
            self.wf(),
        ensures
            r == decision_for(!stale_at(self.record().etime, current_time)),
    {
        if self.is_stale_at(current_time) {
            FilterDecision::Remove
        } else {
            FilterDecision::Keep
        }
    }

    /// Leaves in the buffer only the payload: the type tag and the fixed
    /// suffix are cut off.
    pub fn strip_suffix(&mut self)
        requires
            old(self).wf(),
        ensures
            final(self)@ == old(self).record().user_value,
    {
        let ghost b = self@;
        buffer_advance(&mut self.base.value, TYPE_LENGTH);
        let len = buffer_len(&self.base.value);
        buffer_truncate(&mut self.base.value, len - STRING_VALUE_SUFFIXLENGTH);
        assert(self@ =~= b.subrange(1, b.len() - 32));
    }

    /// Writes the held creation time into the buffer.
    pub fn set_ctime_to_value(&mut self)
        requires
            old(self).layout(),
        ensures
            final(self).layout(),
            final(self)@.len() == old(self)@.len(),
            final(self).held_ctime() == old(self).held_ctime(),
            final(self).held_etime() == old(self).held_etime(),
            final(self).record() == (StringRecord {
                ctime: old(self).held_ctime(),
                ..old(self).record()
            }),
    {
        let len = buffer_len(&self.base.value);
        let start = len - STRING_VALUE_SUFFIXLENGTH + 16;
        let ghost b = self@;
        let ctime = self.base.ctime;
        self.base.write_u64(start, ctime);
        proof {
            lemma_le_round_trip(ctime, 0);
            lemma_patched(b, start as int, le64(ctime));
            let nb = self@;
            assert(nb.subrange(1, nb.len() - 32) == b.subrange(1, b.len() - 32));
            assert(nb.subrange(nb.len() - 32, nb.len() - 16) == b.subrange(
                b.len() - 32,
                b.len() - 16,
            ));
            assert(nb.subrange(nb.len() - 8, nb.len() as int) == b.subrange(
                b.len() - 8,
                b.len() as int,
            ));
        }
    }

    /// Writes the held expiration time into the buffer.
    pub fn set_etime_to_value(&mut self)
        requires
            old(self).layout(),
        ensures
            final(self).layout(),
            final(self)@.len() == old(self)@.len(),
            final(self).held_ctime() == old(self).held_ctime(),
            final(self).held_etime() == old(self).held_etime(),
            final(self).record() == (StringRecord {
                etime: old(self).held_etime(),
                ..old(self).record()
            }),
    {
        let len = buffer_len(&self.base.value);
        let start = len - STRING_VALUE_SUFFIXLENGTH + 16 + 8;
        let ghost b = self@;
        let etime = self.base.etime;
        self.base.write_u64(start, etime);
        proof {
            lemma_le_round_trip(etime, 0);
            lemma_patched(b, start as int, le64(etime));
            let nb = self@;
            assert(nb.subrange(1, nb.len() - 32) == b.subrange(1, b.len() - 32));
            assert(nb.subrange(nb.len() - 32, nb.len() - 16) == b.subrange(
                b.len() - 32,
                b.len() - 16,
            ));
            assert(nb.subrange(nb.len() - 16, nb.len() - 8) == b.subrange(
                b.len() - 16,
                b.len() - 8,
            ));
        }
    }

    /// Sets the creation time, in the held field and in the buffer.
    pub fn set_ctime(&mut self, ctime: u64)
        requires
            old(self).wf(),
        ensures
            final(self).wf(),
            final(self)@.len() == old(self)@.len(),
            final(self).record() == (StringRecord { ctime, ..old(self).record() }),
    {
        self.base.ctime = ctime;
        self.set_ctime_to_value();
    }

    /// Sets the expiration time, in the held field and in the buffer.
    pub fn set_etime(&mut self, etime: u64)
        requires
            old(self).wf(),
        ensures
            final(self).wf(),
            final(self)@.len() == old(self)@.len(),
            final(self).record() == (StringRecord { etime, ..old(self).record() }),
    {
        self.base.etime = etime;
        self.set_etime_to_value();
    }
}

} // verus!
