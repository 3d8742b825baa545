//! The metadata record of a hash, set or sorted set:
//! `type(1) | count(4) | version(8) | reserve(16) | ctime(8) | etime(8)`.
//! What stands between the type tag and the version is the record's value;
//! its first four bytes are the element count.
use crate::base_value_format::{
    data_type_of, lemma_le_round_trip, lemma_next_version_increases, lemma_patched, le32, le64,
    next_version, read_u32_at, read_u64_at, stale_at, type_tag, u32_at, u64_at, version_after,
    DataType, InternalValue, ParsedInternalValue, Result, StorageError,
};
use crate::buffer::{
    buffer_as_slice, buffer_len, buffer_put_slice, buffer_put_u64_le, buffer_put_u8,
    buffer_with_capacity, bytes_as_slice, bytes_mut_contents,
};
use crate::clock::now_micros;
use crate::storage_define::{
    BASE_META_VALUE_MIN_LENGTH, BASE_META_VALUE_SUFFIX_LENGTH, SUFFIX_RESERVE_LENGTH,
    TIMESTAMP_LENGTH, TYPE_LENGTH,
};
use bytes::{Bytes, BytesMut};
use vstd::prelude::*;

verus! {

/// What a metadata record holds.
pub struct MetaRecord {
    pub data_type: DataType,
    pub user_value: Seq<u8>,
    pub version: u64,
    pub reserve: Seq<u8>,
    pub ctime: u64,
    pub etime: u64,
}

/// The bytes of a metadata record.
pub open spec fn meta_record_bytes(r: MetaRecord) -> Seq<u8> {
    seq![type_tag(r.data_type)] + r.user_value + le64(r.version) + r.reserve + le64(r.ctime)
        + le64(r.etime)
}

/// Which byte strings read as a metadata record: a known type tag and room
/// for the count and the fixed suffix.
pub open spec fn meta_record_parses(b: Seq<u8>) -> bool {
    b.len() >= 45 && data_type_of(b[0]) is Some
}

/// The record that a byte string reads as.
pub open spec fn meta_record_of(b: Seq<u8>) -> MetaRecord {
    MetaRecord {
        data_type: data_type_of(b[0]).unwrap(),
        user_value: b.subrange(1, b.len() - 40),
        version: u64_at(b, b.len() - 40),
        reserve: b.subrange(b.len() - 32, b.len() - 16),
        ctime: u64_at(b, b.len() - 16),
        etime: u64_at(b, b.len() - 8),
    }
}

/// The element count: the first four bytes of the value, as a signed integer.
pub open spec fn meta_count(r: MetaRecord) -> i32 {
    u32_at(r.user_value, 0) as i32
}

/// The record with its count set to `count`.
pub open spec fn with_count(r: MetaRecord, count: i32) -> MetaRecord {
    MetaRecord {
        user_value: le32(count as u32) + r.user_value.subrange(4, r.user_value.len() as int),
        ..r
    }
}

/// A container is live iff it has not expired and holds elements.
pub open spec fn meta_valid_at(r: MetaRecord, now: u64) -> bool {
    !stale_at(r.etime, now) && meta_count(r) != 0
}

/// `count + delta`, held to the bounds of `i32`.
pub open spec fn saturating_count(count: i32, delta: i32) -> i32 {
    if count + delta > i32::MAX {
        i32::MAX
    } else if count + delta < i32::MIN {
        i32::MIN
    } else {
        (count + delta) as i32
    }
}

/// Whether a change of `delta` leaves a count of `count` within
/// `0 ..= i32::MAX`.
pub open spec fn count_delta_ok(count: i32, delta: i32) -> bool {
    0 <= count + delta <= i32::MAX
}

/// Encoding a metadata record and reading it back gives every field as it
/// was.
pub proof fn lemma_meta_record_round_trip(r: MetaRecord)
    requires
        r.user_value.len() >= 4,
        r.reserve.len() == 16,
    ensures
        meta_record_parses(meta_record_bytes(r)),
        meta_record_of(meta_record_bytes(r)) == r,
{
    let b = meta_record_bytes(r);
    let n = r.user_value.len() as int;
    lemma_le_round_trip(r.version, 0);
    lemma_le_round_trip(r.ctime, 0);
    lemma_le_round_trip(r.etime, 0);
    crate::base_value_format::lemma_type_tag_round_trip(r.data_type);
    assert(b.len() == n + 41);
    assert(b[0] == type_tag(r.data_type));
    assert(b.subrange(1, n + 1) =~= r.user_value);
    assert(b.subrange(n + 1, n + 9) =~= le64(r.version));
    assert(b.subrange(n + 9, n + 25) =~= r.reserve);
    assert(b.subrange(n + 25, n + 33) =~= le64(r.ctime));
    assert(b.subrange(n + 33, n + 41) =~= le64(r.etime));
}

/// A buffer one byte short of the count and the fixed suffix is refused; one
/// of exactly their length, with a known type tag, reads as a record whose
/// value is the count alone.
pub proof fn lemma_meta_minimum_length(b: Seq<u8>)
    ensures
        b.len() == 44 ==> !meta_record_parses(b),
        b.len() == 45 && data_type_of(b[0]) is Some ==> meta_record_parses(b)
            && meta_record_of(b).user_value.len() == 4,
{
}

/// A change of count that the check accepts is applied exactly: no
/// saturation takes place, and the count stays within `0 ..= i32::MAX`.
pub proof fn lemma_accepted_delta_is_exact(count: i32, delta: i32)
    requires
        count_delta_ok(count, delta),
    ensures
        saturating_count(count, delta) == count + delta,
        0 <= saturating_count(count, delta) <= i32::MAX,
{
}

/// Setting a count and reading it back gives that count.
pub proof fn lemma_with_count(r: MetaRecord, count: i32)
    requires
        r.user_value.len() >= 4,
    ensures
        meta_count(with_count(r, count)) == count,
        with_count(r, count).user_value.len() == r.user_value.len(),
{
    lemma_le_round_trip(0, count as u32);
    let u = with_count(r, count).user_value;
    assert(u.subrange(0, 4) =~= le32(count as u32));
    assert((count as u32) as i32 == count) by (bit_vector);
}

/// The metadata of a container as a command handler builds it.
#[derive(Debug)]
pub struct BaseMetaValue {
    pub inner: InternalValue,
}

impl BaseMetaValue {
    /// What the value will be stored as.
    pub open spec fn record(&self) -> MetaRecord {
        MetaRecord {
            data_type: self.inner.data_type,
            user_value: self.inner.payload(),
            version: self.inner.version,
            reserve: self.inner.reserve@,
            ctime: self.inner.ctime,
            etime: self.inner.etime,
        }
    }

    /// Fresh metadata whose value is `user_value`, customarily the four
    /// little-endian bytes of the count.
    pub fn new(user_value: Bytes) -> (r: Self)
        ensures
            r.inner.data_type == DataType::Nones,
            r.inner.user_value == user_value,
            r.inner.reserve@ == crate::base_value_format::zero_reserve(),
            r.inner.version == 0,
            r.inner.ctime == 0,
            r.inner.etime == 0,
    {
        BaseMetaValue { inner: InternalValue::new(DataType::Nones, user_value) }
    }

    /// Moves the version on by the version rule, at the current time.
    pub fn update_version(&mut self) -> (r: u64)
        requires
            old(self).inner.version < u64::MAX,
        ensures
            r > old(self).inner.version,
            final(self).inner == (InternalValue { version: r, ..old(self).inner }),
    {
        self.inner.update_version()
    }

    /// The record's bytes: type tag, value, version, reserve, ctime, etime.
    pub fn encode(&self) -> (r: BytesMut)
        requires
            self.inner.payload().len() + 41 <= isize::MAX,
        ensures
            bytes_mut_contents(r) == meta_record_bytes(self.record()),
    {
        proof {
            lemma_le_round_trip(self.inner.version, 0);
            lemma_le_round_trip(self.inner.ctime, 0);
            lemma_le_round_trip(self.inner.etime, 0);
        }
        let value = bytes_as_slice(&self.inner.user_value);
        let mut buf = buffer_with_capacity(value.len() + 41);
        buffer_put_u8(&mut buf, self.inner.data_type.as_u8());
        buffer_put_slice(&mut buf, value);
        buffer_put_u64_le(&mut buf, self.inner.version);
        buffer_put_slice(&mut buf, self.inner.reserve.as_slice());
        buffer_put_u64_le(&mut buf, self.inner.ctime);
        buffer_put_u64_le(&mut buf, self.inner.etime);
        assert(bytes_mut_contents(buf) =~= meta_record_bytes(self.record()));
        buf
    }
}

/// A metadata record read from storage.
pub struct ParsedBaseMetaValue {
    base: ParsedInternalValue,
    count: i32,
}

impl View for ParsedBaseMetaValue {
    type V = Seq<u8>;

    /// The bytes of the buffer.
    closed spec fn view(&self) -> Seq<u8> {
        self.base.bytes()
    }
}

impl ParsedBaseMetaValue {
    /// The buffer reads as a record, and the ranges and the type stand where
    /// the layout puts them.
    pub closed spec fn layout(&self) -> bool {
        let b = self.base.bytes();
        &&& meta_record_parses(b)
        &&& data_type_of(b[0]) == Some(self.base.data_type)
        &&& self.base.user_value_range.start == 1
        &&& self.base.user_value_range.end == b.len() - 40
        &&& self.base.reserve_range.start == b.len() - 32
        &&& self.base.reserve_range.end == b.len() - 16
    }

    /// The fields held beside the buffer, in record form.
    pub closed spec fn held(&self) -> (i32, u64, u64, u64) {
        (self.count, self.base.version, self.base.ctime, self.base.etime)
    }

    /// The record: the layout holds, and the fields held beside the buffer
    /// are those in it.
    pub open spec fn wf(&self) -> bool {
        &&& self.layout()
        &&& self.held() == (
            meta_count(self.record()),
            self.record().version,
            self.record().ctime,
            self.record().etime,
        )
    }

    /// The record that the buffer holds.
    pub open spec fn record(&self) -> MetaRecord {
        meta_record_of(self@)
    }

    /// Reads a record; a buffer shorter than the count and the fixed suffix,
    /// or with an unknown type tag, is an invalid format.
    pub fn new(internal_value: BytesMut) -> (r: Result<Self>)
        ensures
            match r {
                Ok(p) => {
                    &&& meta_record_parses(bytes_mut_contents(internal_value))
                    &&& p.wf()
                    &&& p@ == bytes_mut_contents(internal_value)
                },
                Err(e) => {
                    &&& !meta_record_parses(bytes_mut_contents(internal_value))
                    &&& e is InvalidFormat
                },
            },
    {
        let value = internal_value;
        let n = buffer_len(&value);
        if n < BASE_META_VALUE_MIN_LENGTH {
            return Err(StorageError::InvalidFormat("invalid meta value length".to_string()));
        }
        let b = buffer_as_slice(&value);
        let data_type = match DataType::try_from_u8(b[0]) {
            Ok(t) => t,
            Err(e) => return Err(e),
        };
        let count = read_u32_at(b, TYPE_LENGTH) as i32;
        let version_start = n - BASE_META_VALUE_SUFFIX_LENGTH;
        let version = read_u64_at(b, version_start);
        let reserve_start = version_start + 8;
        let reserve_end = reserve_start + SUFFIX_RESERVE_LENGTH;
        let ctime = read_u64_at(b, reserve_end);
        let etime = read_u64_at(b, reserve_end + TIMESTAMP_LENGTH);
        proof {
            let bs = bytes_mut_contents(value);
            let u = meta_record_of(bs).user_value;
            assert(u.subrange(0, 4) =~= bs.subrange(1, 5));
        }
        Ok(ParsedBaseMetaValue {
            base: ParsedInternalValue::new(
                value,
                data_type,
                TYPE_LENGTH..version_start,
                reserve_start..reserve_end,
                version,
                ctime,
                etime,
            ),
            count,
        })
    }

    pub fn data_type(&self) -> (r: DataType)
        requires
            self.wf(),
        ensures
            r == self.record().data_type,
    {
        self.base.data_type
    }

    /// The whole buffer, as it would be written back.
    pub fn value(&self) -> (r: &[u8])
        ensures
            r@ == self@,
    {
        buffer_as_slice(&self.base.value)
    }

    pub fn user_value(&self) -> (r: &[u8])
        requires
            self.wf(),
        ensures
            r@ == self.record().user_value,
    {
        let b = buffer_as_slice(&self.base.value);
        &b[self.base.user_value_range.start..self.base.user_value_range.end]
    }

    pub fn reserve(&self) -> (r: &[u8])
        requires
            self.wf(),
        ensures
            r@ == self.record().reserve,
    {
        let b = buffer_as_slice(&self.base.value);
        &b[self.base.reserve_range.start..self.base.reserve_range.end]
    }

    pub fn version(&self) -> (r: u64)
        requires
            self.wf(),
        ensures
            r == self.record().version,
    {
        self.base.version
    }

    pub fn ctime(&self) -> (r: u64)
        requires
            self.wf(),
        ensures
            r == self.record().ctime,
    {
        self.base.ctime
    }

    pub fn etime(&self) -> (r: u64)
        requires
            self.wf(),
        ensures
            r == self.record().etime,
    {
        self.base.etime
    }

    pub fn count(&self) -> (r: i32)
        requires
            self.wf(),
        ensures
            r == meta_count(self.record()),
    {
        self.count
    }

    /// Whether the container has expired by `now`.
    pub fn is_stale_at(&self, now: u64) -> (r: bool)
        requires
            self.wf(),
        ensures
            r == stale_at(self.record().etime, now),
    {
        self.base.is_stale_at(now)
    }

    /// Whether the container is live at `now`: not expired, and not empty.
    pub fn is_valid_at(&self, now: u64) -> (r: bool)
        requires
            self.wf(),
        ensures
            r == meta_valid_at(self.record(), now),
    {
        !self.base.is_stale_at(now) && self.count != 0
    }

    /// Whether the container is live at the current time.
    pub fn is_valid(&self) -> (r: bool)
        requires
            self.wf(),
        ensures
            meta_count(self.record()) == 0 ==> !r,
            self.record().etime == 0 && meta_count(self.record()) != 0 ==> r,
    {
        self.is_valid_at(now_micros())
    }

    /// Whether `count` elements fit in the count field.
    pub fn check_set_count(&self, count: usize) -> (r: bool)
        ensures
            r == (count <= i32::MAX),
    {
        count <= i32::MAX as usize
    }

    /// Whether adding `delta` leaves the count within `0 ..= i32::MAX`.
    pub fn check_modify_count(&mut self, delta: i32) -> (r: bool)
        requires
            old(self).wf(),
        ensures
            *final(self) == *old(self),
            r == count_delta_ok(meta_count(old(self).record()), delta),
    {
        match self.count.checked_add(delta) {
            Some(new_count) => new_count >= 0,
            None => false,
        }
    }

    /// Writes the held count into the buffer.
    fn set_count_to_value(&mut self)
        requires
            old(self).layout(),
        ensures
            final(self).layout(),
            final(self)@.len() == old(self)@.len(),
            final(self).held() == old(self).held(),
            final(self).record() == with_count(old(self).record(), old(self).held().0),
    {
        let ghost b = self@;
        let count = self.count as u32;
        self.base.write_u32(TYPE_LENGTH, count);
        proof {
            lemma_le_round_trip(0, count);
            lemma_patched(b, 1, le32(count));
            let nb = self@;
            let n = b.len() as int;
            assert(nb.subrange(1, n - 40) =~= le32(count) + b.subrange(1, n - 40).subrange(
                4,
                n - 41,
            ));
            assert(nb.subrange(n - 40, n - 32) == b.subrange(n - 40, n - 32));
            assert(nb.subrange(n - 32, n - 16) == b.subrange(n - 32, n - 16));
            assert(nb.subrange(n - 16, n - 8) == b.subrange(n - 16, n - 8));
            assert(nb.subrange(n - 8, n) == b.subrange(n - 8, n));
        }
    }

    /// Writes the held version into the buffer.
    fn set_version_to_value(&mut self)
        requires
            old(self).layout(),
        ensures
            final(self).layout(),
            final(self)@.len() == old(self)@.len(),
            final(self).held() == old(self).held(),
            final(self).record() == (MetaRecord {
                version: old(self).held().1,
                ..old(self).record()
            }),
    {
        let ghost b = self@;
        let start = buffer_len(&self.base.value) - BASE_META_VALUE_SUFFIX_LENGTH;
        let version = self.base.version;
        self.base.write_u64(start, version);
        proof {
            lemma_le_round_trip(version, 0);
            lemma_patched(b, start as int, le64(version));
            let nb = self@;
            let n = b.len() as int;
            assert(nb.subrange(1, n - 40) == b.subrange(1, n - 40));
            assert(nb.subrange(n - 32, n - 16) == b.subrange(n - 32, n - 16));
            assert(nb.subrange(n - 16, n - 8) == b.subrange(n - 16, n - 8));
            assert(nb.subrange(n - 8, n) == b.subrange(n - 8, n));
        }
    }

    /// Writes the held creation time into the buffer.
    fn set_ctime_to_value(&mut self)
        requires
            old(self).layout(),
        ensures
            final(self).layout(),
            final(self)@.len() == old(self)@.len(),
            final(self).held() == old(self).held(),
            final(self).record() == (MetaRecord { ctime: old(self).held().2, ..old(self).record() }),
    {
        let ghost b = self@;
        let start = buffer_len(&self.base.value) - 2 * TIMESTAMP_LENGTH;
        let ctime = self.base.ctime;
        self.base.write_u64(start, ctime);
        proof {
            lemma_le_round_trip(ctime, 0);
            lemma_patched(b, start as int, le64(ctime));
            let nb = self@;
            let n = b.len() as int;
            assert(nb.subrange(1, n - 40) == b.subrange(1, n - 40));
            assert(nb.subrange(n - 40, n - 32) == b.subrange(n - 40, n - 32));
            assert(nb.subrange(n - 32, n - 16) == b.subrange(n - 32, n - 16));
            assert(nb.subrange(n - 8, n) == b.subrange(n - 8, n));
        }
    }

    /// Writes the held expiration time into the buffer.
    fn set_etime_to_value(&mut self)
        requires
            old(self).layout(),
        ensures
            final(self).layout(),
            final(self)@.len() == old(self)@.len(),
            final(self).held() == old(self).held(),
            final(self).record() == (MetaRecord { etime: old(self).held().3, ..old(self).record() }),
    {
        let ghost b = self@;
        let start = buffer_len(&self.base.value) - TIMESTAMP_LENGTH;
        let etime = self.base.etime;
        self.base.write_u64(start, etime);
        proof {
            lemma_le_round_trip(etime, 0);
            lemma_patched(b, start as int, le64(etime));
            let nb = self@;
            let n = b.len() as int;
            assert(nb.subrange(1, n - 40) == b.subrange(1, n - 40));
            assert(nb.subrange(n - 40, n - 32) == b.subrange(n - 40, n - 32));
            assert(nb.subrange(n - 32, n - 16) == b.subrange(n - 32, n - 16));
            assert(nb.subrange(n - 16, n - 8) == b.subrange(n - 16, n - 8));
        }
    }

    /// Sets the count, in the held field and in the buffer.
    pub fn set_count(&mut self, count: i32)
        requires
            old(self).wf(),
        ensures
            final(self).wf(),
            final(self)@.len() == old(self)@.len(),
            final(self).record() == with_count(old(self).record(), count),
    {
        self.count = count;
        self.set_count_to_value();
        proof {
            lemma_with_count(meta_record_of(old(self)@), count);
        }
    }

    /// Sets the expiration time, in the held field and in the buffer.
    pub fn set_etime(&mut self, etime: u64)
        requires
            old(self).wf(),
        ensures
            final(self).wf(),
            final(self)@.len() == old(self)@.len(),
            final(self).record() == (MetaRecord { etime, ..old(self).record() }),
    {
        self.base.etime = etime;
        self.set_etime_to_value();
    }

    /// Sets the creation time, in the held field and in the buffer.
    pub fn set_ctime(&mut self, ctime: u64)
        requires
            old(self).wf(),
        ensures
            final(self).wf(),
            final(self)@.len() == old(self)@.len(),
            final(self).record() == (MetaRecord { ctime, ..old(self).record() }),
    {
        self.base.ctime = ctime;
        self.set_ctime_to_value();
    }

    /// Adds `delta` to the count, held to the bounds of `i32`, in the held
    /// field and in the buffer. Where `check_modify_count` accepted `delta`,
    /// the new count is exactly the sum.
    pub fn modify_count(&mut self, delta: i32)
        requires
            old(self).wf(),
        ensures
            final(self).wf(),
            final(self)@.len() == old(self)@.len(),
            final(self).record() == with_count(
                old(self).record(),
                saturating_count(meta_count(old(self).record()), delta),
            ),
    {
        let sum = self.count as i64 + delta as i64;
        let new_count: i32 = if sum > i32::MAX as i64 {
            i32::MAX
        } else if sum < i32::MIN as i64 {
            i32::MIN
        } else {
            sum as i32
        };
        self.set_count(new_count);
    }

    /// Moves the version on by the version rule, for the clock reading `now`,
    /// in the held field and in the buffer, and returns it.
    pub fn update_version_at(&mut self, now: u64) -> (r: u64)
        requires
            old(self).wf(),
            old(self).record().version < u64::MAX,
        ensures
            final(self).wf(),
            final(self)@.len() == old(self)@.len(),
            r == next_version(old(self).record().version, now),
            final(self).record() == (MetaRecord { version: r, ..old(self).record() }),
    {
        self.base.version = version_after(self.base.version, now);
        self.set_version_to_value();
        self.base.version
    }

    /// Moves the version on by the version rule, at the current time.
    pub fn update_version(&mut self) -> (r: u64)
        requires
            old(self).wf(),
            old(self).record().version < u64::MAX,
        ensures
            final(self).wf(),
            final(self)@.len() == old(self)@.len(),
            r > old(self).record().version,
            final(self).record() == (MetaRecord { version: r, ..old(self).record() }),
    {
        let now = now_micros();
        proof {
            lemma_next_version_increases(self.record().version, now);
        }
        self.update_version_at(now)
    }

    /// Makes the record that of a new, empty container: count, creation time
    /// and expiration time go to 0, and the version moves on. Returns the new
    /// version, for the element keys of the new container.
    pub fn initial_meta_value(&mut self) -> (r: u64)
        requires
            old(self).wf(),
            old(self).record().version < u64::MAX,
        ensures
            final(self).wf(),
            r > old(self).record().version,
            final(self).record() == (MetaRecord {
                version: r,
                ctime: 0,
                etime: 0,
                ..with_count(old(self).record(), 0)
            }),
    {
        self.set_count(0);
        self.set_etime(0);
        self.set_ctime(0);
        self.update_version()
    }
}

} // verus!
