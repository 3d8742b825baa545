//! The bare data record, the value of one element of a hash, set, sorted set
//! or list: `value(var) | reserve(16) | ctime(8)`. It has no type tag and no
//! expiration time: the metadata record of its container decides whether it
//! is live.
use crate::base_value_format::{
    lemma_le_round_trip, lemma_patched, le64, read_u64_at, u64_at, DataType, InternalValue,
    ParsedInternalValue, Result, StorageError,
};
use crate::buffer::{
    buffer_as_slice, buffer_len, buffer_put_slice, buffer_put_u64_le, buffer_truncate,
    buffer_with_capacity, bytes_as_slice, bytes_mut_contents,
};
use crate::storage_define::{
    BASE_DATA_VALUE_SUFFIX_LENGTH, SUFFIX_RESERVE_LENGTH, TIMESTAMP_LENGTH,
};
use bytes::{Bytes, BytesMut};
use vstd::prelude::*;

verus! {

/// What a bare data record holds.
pub struct DataRecord {
    pub user_value: Seq<u8>,
    pub reserve: Seq<u8>,
    pub ctime: u64,
}

/// The bytes of a bare data record.
pub open spec fn data_record_bytes(r: DataRecord) -> Seq<u8> {
    r.user_value + r.reserve + le64(r.ctime)
}

/// Which byte strings read as a bare data record: room for the suffix.
pub open spec fn data_record_parses(b: Seq<u8>) -> bool {
    b.len() >= 24
}

/// The record that a byte string reads as.
pub open spec fn data_record_of(b: Seq<u8>) -> DataRecord {
    DataRecord {
        user_value: b.subrange(0, b.len() - 24),
        reserve: b.subrange(b.len() - 24, b.len() - 8),
        ctime: u64_at(b, b.len() - 8),
    }
}

/// Encoding a bare data record and reading it back gives every field as it
/// was.
pub proof fn lemma_data_record_round_trip(r: DataRecord)
    requires
        r.reserve.len() == 16,
    ensures
        data_record_parses(data_record_bytes(r)),
        data_record_of(data_record_bytes(r)) == r,
{
    let b = data_record_bytes(r);
    let n = r.user_value.len() as int;
    lemma_le_round_trip(r.ctime, 0);
    assert(b.len() == n + 24);
    assert(b.subrange(0, n) =~= r.user_value);
    assert(b.subrange(n, n + 16) =~= r.reserve);
    assert(b.subrange(n + 16, n + 24) =~= le64(r.ctime));
}

/// A buffer one byte short of the suffix is refused; one of exactly its
/// length reads as a record with an empty payload.
pub proof fn lemma_data_minimum_length(b: Seq<u8>)
    ensures
        b.len() == 23 ==> !data_record_parses(b),
        b.len() == 24 ==> data_record_parses(b) && data_record_of(b).user_value.len() == 0,
{
}

/// The value of a container element as a command handler builds it.
#[derive(Debug)]
pub struct BaseDataValue {
    pub inner: InternalValue,
}

impl BaseDataValue {
    /// What the value will be stored as.
    pub open spec fn record(&self) -> DataRecord {
        DataRecord {
            user_value: self.inner.payload(),
            reserve: self.inner.reserve@,
            ctime: self.inner.ctime,
        }
    }

    pub fn new(user_value: Bytes) -> (r: Self)
        ensures
            r.inner.data_type == DataType::Nones,
            r.inner.user_value == user_value,
            r.inner.reserve@ == crate::base_value_format::zero_reserve(),
            r.inner.version == 0,
            r.inner.ctime == 0,
            r.inner.etime == 0,
    {
        BaseDataValue { inner: InternalValue::new(DataType::Nones, user_value) }
    }

    /// The record's bytes: payload, reserve and ctime.
    pub fn encode(&self) -> (r: BytesMut)
        requires
            self.inner.payload().len() + 24 <= isize::MAX,
        ensures
            bytes_mut_contents(r) == data_record_bytes(self.record()),
    {
        proof {
            lemma_le_round_trip(self.inner.ctime, 0);
        }
        let value = bytes_as_slice(&self.inner.user_value);
        let mut buf = buffer_with_capacity(value.len() + 24);
        buffer_put_slice(&mut buf, value);
        buffer_put_slice(&mut buf, self.inner.reserve.as_slice());
        buffer_put_u64_le(&mut buf, self.inner.ctime);
        assert(bytes_mut_contents(buf) =~= data_record_bytes(self.record()));
        buf
    }
}

/// A bare data record read from storage.
pub struct ParsedBaseDataValue {
    base: ParsedInternalValue,
}

impl View for ParsedBaseDataValue {
    type V = Seq<u8>;

    /// The bytes of the buffer.
    closed spec fn view(&self) -> Seq<u8> {
        self.base.bytes()
    }
}

impl ParsedBaseDataValue {
    /// The buffer reads as a record, and the ranges stand where the layout
    /// puts them.
    pub closed spec fn layout(&self) -> bool {
        let b = self.base.bytes();
        &&& data_record_parses(b)
        &&& self.base.data_type == DataType::Nones
        &&& self.base.user_value_range.start == 0
        &&& self.base.user_value_range.end == b.len() - 24
        &&& self.base.reserve_range.start == b.len() - 24
        &&& self.base.reserve_range.end == b.len() - 8
        &&& self.base.version == 0
        &&& self.base.etime == 0
    }

    /// The creation time held beside the buffer.
    pub closed spec fn held_ctime(&self) -> u64 {
        self.base.ctime
    }

    /// The record: the layout holds, and the creation time held beside the
    /// buffer is the one in it.
    pub open spec fn wf(&self) -> bool {
        self.layout() && self.held_ctime() == data_record_of(self@).ctime
    }

    /// The record that the buffer holds.
    pub open spec fn record(&self) -> DataRecord {
        data_record_of(self@)
    }

    /// Reads a record; a buffer shorter than the suffix is an invalid format.
    pub fn new(internal_value: BytesMut) -> (r: Result<Self>)
        ensures
            match r {
                Ok(p) => {
                    &&& data_record_parses(bytes_mut_contents(internal_value))
                    &&& p.wf()
                    &&& p@ == bytes_mut_contents(internal_value)
                },
                Err(e) => {
                    &&& !data_record_parses(bytes_mut_contents(internal_value))
                    &&& e is InvalidFormat
                },
            },
    {
        let value = internal_value;
        let n = buffer_len(&value);
        if n < BASE_DATA_VALUE_SUFFIX_LENGTH {
            return Err(StorageError::InvalidFormat("invalid data value length".to_string()));
        }
        let user_value_size = n - BASE_DATA_VALUE_SUFFIX_LENGTH;
        let ctime_start = user_value_size + SUFFIX_RESERVE_LENGTH;
        let ctime = read_u64_at(buffer_as_slice(&value), ctime_start);
        Ok(ParsedBaseDataValue {
            base: ParsedInternalValue::new(
                value,
                DataType::Nones,
                0..user_value_size,
                user_value_size..ctime_start,
                0,
                ctime,
                0,
            ),
        })
    }

    /// The whole buffer, as it would be written back.
    pub fn value(&self) -> (r: &[u8])
        ensures
            r@ == self@,
    {
        buffer_as_slice(&self.base.value)
    }

    pub fn user_value(&self) -> (r: &[u8])
        requires
            self.wf(),
        ensures
            r@ == self.record().user_value,
    {
        let b = buffer_as_slice(&self.base.value);
        &b[self.base.user_value_range.start..self.base.user_value_range.end]
    }

    pub fn reserve(&self) -> (r: &[u8])
        requires
            self.wf(),
        ensures
            r@ == self.record().reserve,
    {
        let b = buffer_as_slice(&self.base.value);
        &b[self.base.reserve_range.start..self.base.reserve_range.end]
    }

    pub fn ctime(&self) -> (r: u64)
        requires
            self.wf(),
        ensures
            r == self.record().ctime,
    {
        self.base.ctime
    }

    /// Writes the held creation time into the buffer.
    pub fn set_ctime_to_value(&mut self)
        requires
            old(self).layout(),
        ensures
            final(self).layout(),
            final(self)@.len() == old(self)@.len(),
            final(self).held_ctime() == old(self).held_ctime(),
            final(self).record() == (DataRecord {
                ctime: old(self).held_ctime(),
                ..old(self).record()
            }),
    {
        let ghost b = self@;
        let start = buffer_len(&self.base.value) - TIMESTAMP_LENGTH;
        let ctime = self.base.ctime;
        self.base.write_u64(start, ctime);
        proof {
            lemma_le_round_trip(ctime, 0);
            lemma_patched(b, start as int, le64(ctime));
            let nb = self@;
            let n = b.len() as int;
            assert(nb.subrange(0, n - 24) == b.subrange(0, n - 24));
            assert(nb.subrange(n - 24, n - 8) == b.subrange(n - 24, n - 8));
        }
    }

    /// Sets the creation time, in the held field and in the buffer.
    pub fn set_ctime(&mut self, ctime: u64)
        requires
            old(self).wf(),
        ensures
            final(self).wf(),
            final(self)@.len() == old(self)@.len(),
            final(self).record() == (DataRecord { ctime, ..old(self).record() }),
    {
        self.base.ctime = ctime;
        self.set_ctime_to_value();
    }

    /// Leaves in the buffer only the payload: the suffix is cut off.
    pub fn strip_suffix(&mut self)
        requires
            old(self).wf(),
        ensures
            final(self)@ == old(self).record().user_value,
    {
        let len = buffer_len(&self.base.value);
        buffer_truncate(&mut self.base.value, len - BASE_DATA_VALUE_SUFFIX_LENGTH);
    }
}

} // verus!
