//! The metadata record of a list:
//! `type(1) | count(4) | version(8) | left index(8) | right index(8) |
//! reserve(16) | ctime(8) | etime(8)`.
//! What stands between the type tag and the version is the record's value;
//! its first four bytes are the element count. The two indices start side by
//! side in the middle of the `u64` range: a push on the left moves the left
//! index down, a push on the right moves the right index up, and no stored
//! element is ever renumbered.
use crate::base_value_format::{
    data_type_of, lemma_le_round_trip, lemma_next_version_increases, lemma_patched, le32, le64,
    next_version, patched, read_u32_at, read_u64_at, stale_at, type_tag, u32_at, u64_at,
    version_after, DataType, InternalValue, ParsedInternalValue, Result, StorageError,
};
use crate::buffer::{
    buffer_as_slice, buffer_len, buffer_put_slice, buffer_put_u64_le, buffer_put_u8,
    buffer_with_capacity, bytes_as_slice, bytes_mut_contents,
};
use crate::clock::now_micros;
use crate::storage_define::{
    LISTS_META_VALUE_MIN_LENGTH, LISTS_META_VALUE_SUFFIX_LENGTH, LIST_VALUE_INDEX_LENGTH,
    SUFFIX_RESERVE_LENGTH, TIMESTAMP_LENGTH, TYPE_LENGTH, VERSION_LENGTH,
};
use bytes::{Bytes, BytesMut};
use vstd::prelude::*;

verus! {

/// The left index of an empty list.
pub const INITIAL_LEFT_INDEX: u64 = 9_223_372_036_854_775_807;

/// The right index of an empty list.
pub const INITIAL_RIGHT_INDEX: u64 = 9_223_372_036_854_775_808;

/// What a list metadata record holds.
pub struct ListsMetaRecord {
    pub data_type: DataType,
    pub user_value: Seq<u8>,
    pub version: u64,
    pub left_index: u64,
    pub right_index: u64,
    pub reserve: Seq<u8>,
    pub ctime: u64,
    pub etime: u64,
}

/// The bytes of a list metadata record.
pub open spec fn lists_record_bytes(r: ListsMetaRecord) -> Seq<u8> {
    seq![type_tag(r.data_type)] + r.user_value + le64(r.version) + le64(r.left_index) + le64(
        r.right_index,
    ) + r.reserve + le64(r.ctime) + le64(r.etime)
}

/// Which byte strings read as a list metadata record: a known type tag and
/// room for the count and the fixed suffix.
pub open spec fn lists_record_parses(b: Seq<u8>) -> bool {
    b.len() >= 61 && data_type_of(b[0]) is Some
}

/// The record that a byte string reads as.
pub open spec fn lists_record_of(b: Seq<u8>) -> ListsMetaRecord {
    ListsMetaRecord {
        data_type: data_type_of(b[0]).unwrap(),
        user_value: b.subrange(1, b.len() - 56),
        version: u64_at(b, b.len() - 56),
        left_index: u64_at(b, b.len() - 48),
        right_index: u64_at(b, b.len() - 40),
        reserve: b.subrange(b.len() - 32, b.len() - 16),
        ctime: u64_at(b, b.len() - 16),
        etime: u64_at(b, b.len() - 8),
    }
}

/// The element count: the first four bytes of the value.
pub open spec fn lists_count(r: ListsMetaRecord) -> u64 {
    u32_at(r.user_value, 0) as u64
}

/// The record with its count set to `count`.
pub open spec fn lists_with_count(r: ListsMetaRecord, count: u64) -> ListsMetaRecord {
    ListsMetaRecord {
        user_value: le32(count as u32) + r.user_value.subrange(4, r.user_value.len() as int),
        ..r
    }
}

/// A list is live iff it has not expired and holds elements.
pub open spec fn lists_valid_at(r: ListsMetaRecord, now: u64) -> bool {
    !stale_at(r.etime, now) && lists_count(r) != 0
}

/// Encoding a list metadata record and reading it back gives every field as
/// it was.
pub proof fn lemma_lists_record_round_trip(r: ListsMetaRecord)
    requires
        r.user_value.len() >= 4,
        r.reserve.len() == 16,
    ensures
        lists_record_parses(lists_record_bytes(r)),
        lists_record_of(lists_record_bytes(r)) == r,
{
    let b = lists_record_bytes(r);
    let n = r.user_value.len() as int;
    lemma_le_round_trip(r.version, 0);
    lemma_le_round_trip(r.left_index, 0);
    lemma_le_round_trip(r.right_index, 0);
    lemma_le_round_trip(r.ctime, 0);
    lemma_le_round_trip(r.etime, 0);
    crate::base_value_format::lemma_type_tag_round_trip(r.data_type);
    assert(b.len() == n + 57);
    assert(b[0] == type_tag(r.data_type));
    assert(b.subrange(1, n + 1) =~= r.user_value);
    assert(b.subrange(n + 1, n + 9) =~= le64(r.version));
    assert(b.subrange(n + 9, n + 17) =~= le64(r.left_index));
    assert(b.subrange(n + 17, n + 25) =~= le64(r.right_index));
    assert(b.subrange(n + 25, n + 41) =~= r.reserve);
    assert(b.subrange(n + 41, n + 49) =~= le64(r.ctime));
    assert(b.subrange(n + 49, n + 57) =~= le64(r.etime));
}

/// A buffer one byte short of the count and the fixed suffix is refused; one
/// of exactly their length, with a known type tag, reads as a record whose
/// value is the count alone.
pub proof fn lemma_lists_minimum_length(b: Seq<u8>)
    ensures
        b.len() == 60 ==> !lists_record_parses(b),
        b.len() == 61 && data_type_of(b[0]) is Some ==> lists_record_parses(b)
            && lists_record_of(b).user_value.len() == 4,
{
}

/// Writing one of the eight-byte fields over a record changes that field
/// alone.
proof fn lemma_lists_patch(b: Seq<u8>, start: int, x: u64)
    requires
        lists_record_parses(b),
        start == b.len() - 56 || start == b.len() - 48 || start == b.len() - 40 || start
            == b.len() - 16 || start == b.len() - 8,
    ensures
        ({
            let nb = patched(b, start, le64(x));
            let n = b.len() as int;
            let r = lists_record_of(b);
            let q = lists_record_of(nb);
            &&& nb.len() == n
            &&& lists_record_parses(nb)
            &&& q.data_type == r.data_type
            &&& q.user_value == r.user_value
            &&& q.reserve == r.reserve
            &&& q.version == if start == n - 56 { x } else { r.version }
            &&& q.left_index == if start == n - 48 { x } else { r.left_index }
            &&& q.right_index == if start == n - 40 { x } else { r.right_index }
            &&& q.ctime == if start == n - 16 { x } else { r.ctime }
            &&& q.etime == if start == n - 8 { x } else { r.etime }
        }),
{
    lemma_le_round_trip(x, 0);
    lemma_patched(b, start, le64(x));
    let nb = patched(b, start, le64(x));
    let n = b.len() as int;
    assert(nb[0] == b[0]);
    assert(nb.subrange(1, n - 56) == b.subrange(1, n - 56));
    assert(nb.subrange(n - 32, n - 16) == b.subrange(n - 32, n - 16));
    if start != n - 56 {
        assert(nb.subrange(n - 56, n - 48) == b.subrange(n - 56, n - 48));
    }
    if start != n - 48 {
        assert(nb.subrange(n - 48, n - 40) == b.subrange(n - 48, n - 40));
    }
    if start != n - 40 {
        assert(nb.subrange(n - 40, n - 32) == b.subrange(n - 40, n - 32));
    }
    if start != n - 16 {
        assert(nb.subrange(n - 16, n - 8) == b.subrange(n - 16, n - 8));
    }
    if start != n - 8 {
        assert(nb.subrange(n - 8, n) == b.subrange(n - 8, n));
    }
}

/// Setting a count that fits in four bytes and reading it back gives that
/// count.
pub proof fn lemma_lists_with_count(r: ListsMetaRecord, count: u64)
    requires
        r.user_value.len() >= 4,
        count <= u32::MAX,
    ensures
        lists_count(lists_with_count(r, count)) == count,
        lists_with_count(r, count).user_value.len() == r.user_value.len(),
{
    lemma_le_round_trip(0, count as u32);
    let u = lists_with_count(r, count).user_value;
    assert(u.subrange(0, 4) =~= le32(count as u32));
}

/// The record after room was made for `n` elements on the left.
pub open spec fn pushed_left(r: ListsMetaRecord, n: u64) -> ListsMetaRecord {
    ListsMetaRecord { left_index: (r.left_index - n) as u64, ..r }
}

/// The record after room was made for `n` elements on the right.
pub open spec fn pushed_right(r: ListsMetaRecord, n: u64) -> ListsMetaRecord {
    ListsMetaRecord { right_index: (r.right_index + n) as u64, ..r }
}

/// Pushes on one side never move the other side's index, and the pushes on
/// a side add up: `a` then `b` elements on the left move the left index down
/// by `a + b`, and likewise up on the right. So after `a` pushes on each side
/// both indices stand `a` away from where they started.
pub proof fn lemma_list_pushes_add_up(r: ListsMetaRecord, a: u64, b: u64)
    requires
        a + b <= r.left_index,
        r.right_index + a + b <= u64::MAX,
    ensures
        pushed_left(pushed_left(r, a), b) == pushed_left(r, (a + b) as u64),
        pushed_right(pushed_right(r, a), b) == pushed_right(r, (a + b) as u64),
        pushed_left(r, a).right_index == r.right_index,
        pushed_right(r, a).left_index == r.left_index,
        r.left_index - pushed_right(pushed_left(r, a), a).left_index == a,
        pushed_right(pushed_left(r, a), a).right_index - r.right_index == a,
{
}

/// The metadata of a list as a command handler builds it.
#[derive(Debug)]
pub struct ListsMetaValue {
    inner: InternalValue,
    left_index: u64,
    right_index: u64,
}

impl ListsMetaValue {
    /// What the value will be stored as.
    pub closed spec fn record(&self) -> ListsMetaRecord {
        ListsMetaRecord {
            data_type: self.inner.data_type,
            user_value: self.inner.payload(),
            version: self.inner.version,
            left_index: self.left_index,
            right_index: self.right_index,
            reserve: self.inner.reserve@,
            ctime: self.inner.ctime,
            etime: self.inner.etime,
        }
    }

    /// Fresh list metadata whose value is `user_value`, customarily the four
    /// little-endian bytes of the count, with the indices of an empty list.
    pub fn new(user_value: Bytes) -> (r: Self)
        ensures
            r.record() == (ListsMetaRecord {
                data_type: DataType::Lists,
                user_value: crate::buffer::bytes_contents(user_value),
                version: 0,
                left_index: INITIAL_LEFT_INDEX,
                right_index: INITIAL_RIGHT_INDEX,
                reserve: crate::base_value_format::zero_reserve(),
                ctime: 0,
                etime: 0,
            }),
    {
        ListsMetaValue {
            inner: InternalValue::new(DataType::Lists, user_value),
            left_index: INITIAL_LEFT_INDEX,
            right_index: INITIAL_RIGHT_INDEX,
        }
    }

    /// The record's bytes: type tag, value, version, both indices, reserve,
    /// ctime and etime.
    pub fn encode(&self) -> (r: BytesMut)
        requires
            self.record().user_value.len() + 57 <= isize::MAX,
        ensures
            bytes_mut_contents(r) == lists_record_bytes(self.record()),
    {
        proof {
            lemma_le_round_trip(self.inner.version, 0);
            lemma_le_round_trip(self.left_index, 0);
            lemma_le_round_trip(self.right_index, 0);
            lemma_le_round_trip(self.inner.ctime, 0);
            lemma_le_round_trip(self.inner.etime, 0);
        }
        let value = bytes_as_slice(&self.inner.user_value);
        let mut buf = buffer_with_capacity(value.len() + 57);
        buffer_put_u8(&mut buf, self.inner.data_type.as_u8());
        buffer_put_slice(&mut buf, value);
        buffer_put_u64_le(&mut buf, self.inner.version);
        buffer_put_u64_le(&mut buf, self.left_index);
        buffer_put_u64_le(&mut buf, self.right_index);
        buffer_put_slice(&mut buf, self.inner.reserve.as_slice());
        buffer_put_u64_le(&mut buf, self.inner.ctime);
        buffer_put_u64_le(&mut buf, self.inner.etime);
        assert(bytes_mut_contents(buf) =~= lists_record_bytes(self.record()));
        buf
    }

    /// Moves the version on by the version rule, at the current time.
    pub fn update_version(&mut self) -> (r: u64)
        requires
            old(self).record().version < u64::MAX,
        ensures
            r > old(self).record().version,
            final(self).record() == (ListsMetaRecord { version: r, ..old(self).record() }),
    {
        self.inner.update_version()
    }

    pub fn left_index(&self) -> (r: u64)
        ensures
            r == self.record().left_index,
    {
        self.left_index
    }

    /// Makes room for `index` elements on the left.
    pub fn modify_left_index(&mut self, index: u64)
        requires
            index <= old(self).record().left_index,
        ensures
            final(self).record() == pushed_left(old(self).record(), index),
    {
        self.left_index = self.left_index - index;
    }

    pub fn right_index(&self) -> (r: u64)
        ensures
            r == self.record().right_index,
    {
        self.right_index
    }

    /// Makes room for `index` elements on the right.
    pub fn modify_right_index(&mut self, index: u64)
        requires
            old(self).record().right_index + index <= u64::MAX,
        ensures
            final(self).record() == pushed_right(old(self).record(), index),
    {
        self.right_index = self.right_index + index;
    }
}

/// A list metadata record read from storage.
pub struct ParsedListsMetaValue {
    base: ParsedInternalValue,
    count: u64,
    left_index: u64,
    right_index: u64,
}

impl View for ParsedListsMetaValue {
    type V = Seq<u8>;

    /// The bytes of the buffer.
    closed spec fn view(&self) -> Seq<u8> {
        self.base.bytes()
    }
}

impl ParsedListsMetaValue {
    /// The buffer reads as a record, and the ranges and the type stand where
    /// the layout puts them.
    pub closed spec fn layout(&self) -> bool {
        let b = self.base.bytes();
        &&& lists_record_parses(b)
        &&& data_type_of(b[0]) == Some(self.base.data_type)
        &&& self.base.user_value_range.start == 1
        &&& self.base.user_value_range.end == b.len() - 56
        &&& self.base.reserve_range.start == b.len() - 32
        &&& self.base.reserve_range.end == b.len() - 16
    }

    /// The fields held beside the buffer: count, version, left index, right
    /// index, ctime and etime.
    pub closed spec fn held(&self) -> (u64, u64, u64, u64, u64, u64) {
        (
            self.count,
            self.base.version,
            self.left_index,
            self.right_index,
            self.base.ctime,
            self.base.etime,
        )
    }

    /// The record: the layout holds, and the fields held beside the buffer
    /// are those in it.
    pub open spec fn wf(&self) -> bool {
        &&& self.layout()
        &&& self.held() == (
            lists_count(self.record()),
            self.record().version,
            self.record().left_index,
            self.record().right_index,
            self.record().ctime,
            self.record().etime,
        )
    }

    /// The record that the buffer holds.
    pub open spec fn record(&self) -> ListsMetaRecord {
        lists_record_of(self@)
    }

    /// Reads a record; a buffer shorter than the count and the fixed suffix,
    /// or with an unknown type tag, is an invalid format.
    pub fn new(internal_value: BytesMut) -> (r: Result<Self>)
        ensures
            match r {
                Ok(p) => {
                    &&& lists_record_parses(bytes_mut_contents(internal_value))
                    &&& p.wf()
                    &&& p@ == bytes_mut_contents(internal_value)
                },
                Err(e) => {
                    &&& !lists_record_parses(bytes_mut_contents(internal_value))
                    &&& e is InvalidFormat
                },
            },
    {
        let value = internal_value;
        let n = buffer_len(&value);
        if n < LISTS_META_VALUE_MIN_LENGTH {
            return Err(
                StorageError::InvalidFormat("invalid lists meta value length".to_string()),
            );
        }
        let b = buffer_as_slice(&value);
        let data_type = match DataType::try_from_u8(b[0]) {
            Ok(t) => t,
            Err(e) => return Err(e),
        };
        let count = read_u32_at(b, TYPE_LENGTH) as u64;
        let mut pos = n - LISTS_META_VALUE_SUFFIX_LENGTH;
        let user_value_end = pos;
        let version = read_u64_at(b, pos);
        pos = pos + VERSION_LENGTH;
        let left_index = read_u64_at(b, pos);
        pos = pos + LIST_VALUE_INDEX_LENGTH;
        let right_index = read_u64_at(b, pos);
        pos = pos + LIST_VALUE_INDEX_LENGTH;
        let reserve_range = pos..pos + SUFFIX_RESERVE_LENGTH;
        pos = pos + SUFFIX_RESERVE_LENGTH;
        let ctime = read_u64_at(b, pos);
        pos = pos + TIMESTAMP_LENGTH;
        let etime = read_u64_at(b, pos);
        proof {
            let bs = bytes_mut_contents(value);
            let u = lists_record_of(bs).user_value;
            assert(u.subrange(0, 4) =~= bs.subrange(1, 5));
        }
        Ok(ParsedListsMetaValue {
            base: ParsedInternalValue::new(
                value,
                data_type,
                TYPE_LENGTH..user_value_end,
                reserve_range,
                version,
                ctime,
                etime,
            ),
            count,
            left_index,
            right_index,
        })
    }

    pub fn data_type(&self) -> (r: DataType)
        requires
            self.wf(),
        ensures
            r == self.record().data_type,
    {
        self.base.data_type
    }

    /// The whole buffer, as it would be written back.
    pub fn value(&self) -> (r: &[u8])
        ensures
            r@ == self@,
    {
        buffer_as_slice(&self.base.value)
    }

    pub fn user_value(&self) -> (r: &[u8])
        requires
            self.wf(),
        ensures
            r@ == self.record().user_value,
    {
        let b = buffer_as_slice(&self.base.value);
        &b[self.base.user_value_range.start..self.base.user_value_range.end]
    }

    pub fn reserve(&self) -> (r: &[u8])
        requires
            self.wf(),
        ensures
            r@ == self.record().reserve,
    {
        let b = buffer_as_slice(&self.base.value);
        &b[self.base.reserve_range.start..self.base.reserve_range.end]
    }

    pub fn version(&self) -> (r: u64)
        requires
            self.wf(),
        ensures
            r == self.record().version,
    {
        self.base.version
    }

    pub fn ctime(&self) -> (r: u64)
        requires
            self.wf(),
        ensures
            r == self.record().ctime,
    {
        self.base.ctime
    }

    pub fn etime(&self) -> (r: u64)
        requires
            self.wf(),
        ensures
            r == self.record().etime,
    {
        self.base.etime
    }

    pub fn count(&self) -> (r: u64)
        requires
            self.wf(),
        ensures
            r == lists_count(self.record()),
    {
        self.count
    }

    pub fn left_index(&self) -> (r: u64)
        requires
            self.wf(),
        ensures
            r == self.record().left_index,
    {
        self.left_index
    }

    pub fn right_index(&self) -> (r: u64)
        requires
            self.wf(),
        ensures
            r == self.record().right_index,
    {
        self.right_index
    }

    /// Whether the list is live at `now`: not expired, and not empty.
    pub fn is_valid_at(&self, now: u64) -> (r: bool)
        requires
            self.wf(),
        ensures
            r == lists_valid_at(self.record(), now),
    {
        !self.base.is_stale_at(now) && self.count != 0
    }

    /// Whether the list is live at the current time.
    pub fn is_valid(&self) -> (r: bool)
        requires
            self.wf(),
        ensures
            lists_count(self.record()) == 0 ==> !r,
            self.record().etime == 0 && lists_count(self.record()) != 0 ==> r,
    {
        self.is_valid_at(now_micros())
    }

    /// Writes the eight bytes of `x` at `start`, one of the eight-byte fields.
    fn write_field(&mut self, start: usize, x: u64)
        requires
            old(self).layout(),
            start == old(self)@.len() - 56 || start == old(self)@.len() - 48 || start == old(
                self,
            )@.len() - 40 || start == old(self)@.len() - 16 || start == old(self)@.len() - 8,
        ensures
            final(self).layout(),
            final(self)@ == patched(old(self)@, start as int, le64(x)),
            final(self).held() == old(self).held(),
    {
        let ghost b = self@;
        self.base.write_u64(start, x);
        proof {
            lemma_lists_patch(b, start as int, x);
        }
    }

    /// Writes the held version into the buffer.
    pub fn set_version_to_value(&mut self)
        requires
            old(self).layout(),
        ensures
            final(self).layout(),
            final(self)@.len() == old(self)@.len(),
            final(self).held() == old(self).held(),
            final(self).record() == (ListsMetaRecord {
                version: old(self).held().1,
                ..old(self).record()
            }),
    {
        let start = buffer_len(&self.base.value) - LISTS_META_VALUE_SUFFIX_LENGTH;
        proof {
            lemma_lists_patch(self@, start as int, self.base.version);
        }
        self.write_field(start, self.base.version);
    }

    /// Writes both held indices into the buffer.
    pub fn set_index_to_value(&mut self)
        requires
            old(self).layout(),
        ensures
            final(self).layout(),
            final(self)@.len() == old(self)@.len(),
            final(self).held() == old(self).held(),
            final(self).record() == (ListsMetaRecord {
                left_index: old(self).held().2,
                right_index: old(self).held().3,
                ..old(self).record()
            }),
    {
        let start = buffer_len(&self.base.value) - LISTS_META_VALUE_SUFFIX_LENGTH
            + VERSION_LENGTH;
        proof {
            lemma_lists_patch(self@, start as int, self.left_index);
        }
        self.write_field(start, self.left_index);
        proof {
            lemma_lists_patch(self@, start + 8, self.right_index);
        }
        self.write_field(start + LIST_VALUE_INDEX_LENGTH, self.right_index);
    }

    /// Writes the held creation time into the buffer.
    pub fn set_ctime_to_value(&mut self)
        requires
            old(self).layout(),
        ensures
            final(self).layout(),
            final(self)@.len() == old(self)@.len(),
            final(self).held() == old(self).held(),
            final(self).record() == (ListsMetaRecord {
                ctime: old(self).held().4,
                ..old(self).record()
            }),
    {
        let start = buffer_len(&self.base.value) - 2 * TIMESTAMP_LENGTH;
        proof {
            lemma_lists_patch(self@, start as int, self.base.ctime);
        }
        self.write_field(start, self.base.ctime);
    }

    /// Writes the held expiration time into the buffer.
    pub fn set_etime_to_value(&mut self)
        requires
            old(self).layout(),
        ensures
            final(self).layout(),
            final(self)@.len() == old(self)@.len(),
            final(self).held() == old(self).held(),
            final(self).record() == (ListsMetaRecord {
                etime: old(self).held().5,
                ..old(self).record()
            }),
    {
        let start = buffer_len(&self.base.value) - TIMESTAMP_LENGTH;
        proof {
            lemma_lists_patch(self@, start as int, self.base.etime);
        }
        self.write_field(start, self.base.etime);
    }

    /// Writes the held count into the buffer.
    fn set_count_to_value(&mut self)
        requires
            old(self).layout(),
            old(self).held().0 <= u32::MAX,
        ensures
            final(self).layout(),
            final(self)@.len() == old(self)@.len(),
            final(self).held() == old(self).held(),
            final(self).record() == lists_with_count(old(self).record(), old(self).held().0),
    {
        let ghost b = self@;
        let count = self.count as u32;
        self.base.write_u32(TYPE_LENGTH, count);
        proof {
            lemma_le_round_trip(0, count);
            lemma_patched(b, 1, le32(count));
            let nb = self@;
            let n = b.len() as int;
            assert(nb.subrange(1, n - 56) =~= le32(count) + b.subrange(1, n - 56).subrange(
                4,
                n - 57,
            ));
            assert(nb.subrange(n - 56, n - 48) == b.subrange(n - 56, n - 48));
            assert(nb.subrange(n - 48, n - 40) == b.subrange(n - 48, n - 40));
            assert(nb.subrange(n - 40, n - 32) == b.subrange(n - 40, n - 32));
            assert(nb.subrange(n - 32, n - 16) == b.subrange(n - 32, n - 16));
            assert(nb.subrange(n - 16, n - 8) == b.subrange(n - 16, n - 8));
            assert(nb.subrange(n - 8, n) == b.subrange(n - 8, n));
        }
    }

    /// Sets the count, in the held field and in the buffer.
    pub fn set_count(&mut self, count: u64)
        requires
            old(self).wf(),
            count <= u32::MAX,
        ensures
            final(self).wf(),
            final(self)@.len() == old(self)@.len(),
            final(self).record() == lists_with_count(old(self).record(), count),
    {
        self.count = count;
        self.set_count_to_value();
        proof {
            lemma_lists_with_count(lists_record_of(old(self)@), count);
        }
    }

    /// Adds `delta` to the count, in the held field and in the buffer.
    pub fn modify_count(&mut self, delta: u64)
        requires
            old(self).wf(),
            lists_count(old(self).record()) + delta <= u32::MAX,
        ensures
            final(self).wf(),
            final(self)@.len() == old(self)@.len(),
            final(self).record() == lists_with_count(
                old(self).record(),
                (lists_count(old(self).record()) + delta) as u64,
            ),
    {
        let count = self.count + delta;
        self.set_count(count);
    }

    /// Sets the creation time, in the held field and in the buffer.
    pub fn set_ctime(&mut self, ctime: u64)
        requires
            old(self).wf(),
        ensures
            final(self).wf(),
            final(self)@.len() == old(self)@.len(),
            final(self).record() == (ListsMetaRecord { ctime, ..old(self).record() }),
    {
        self.base.ctime = ctime;
        self.set_ctime_to_value();
    }

    /// Sets the expiration time, in the held field and in the buffer.
    pub fn set_etime(&mut self, etime: u64)
        requires
            old(self).wf(),
        ensures
            final(self).wf(),
            final(self)@.len() == old(self)@.len(),
            final(self).record() == (ListsMetaRecord { etime, ..old(self).record() }),
    {
        self.base.etime = etime;
        self.set_etime_to_value();
    }

    /// Sets the left index, in the held field and in the buffer.
    pub fn set_left_index(&mut self, index: u64)
        requires
            old(self).wf(),
        ensures
            final(self).wf(),
            final(self)@.len() == old(self)@.len(),
            final(self).record() == (ListsMetaRecord { left_index: index, ..old(self).record() }),
    {
        self.left_index = index;
        self.set_index_to_value();
    }

    /// Sets the right index, in the held field and in the buffer.
    pub fn set_right_index(&mut self, index: u64)
        requires
            old(self).wf(),
        ensures
            final(self).wf(),
            final(self)@.len() == old(self)@.len(),
            final(self).record() == (ListsMetaRecord { right_index: index, ..old(self).record() }),
    {
        self.right_index = index;
        self.set_index_to_value();
    }

    /// Makes room for `index` elements on the left: the left index moves down
    /// by `index`.
    pub fn modify_left_index(&mut self, index: u64)
        requires
            old(self).wf(),
            index <= old(self).record().left_index,
        ensures
            final(self).wf(),
            final(self)@.len() == old(self)@.len(),
            final(self).record() == pushed_left(old(self).record(), index),
    {
        let left = self.left_index - index;
        self.set_left_index(left);
    }

    /// Makes room for `index` elements on the right: the right index moves up
    /// by `index`.
    pub fn modify_right_index(&mut self, index: u64)
        requires
            old(self).wf(),
            old(self).record().right_index + index <= u64::MAX,
        ensures
            final(self).wf(),
            final(self)@.len() == old(self)@.len(),
            final(self).record() == pushed_right(old(self).record(), index),
    {
        let right = self.right_index + index;
        self.set_right_index(right);
    }

    /// Moves the version on by the version rule, for the clock reading `now`,
    /// in the held field and in the buffer, and returns it.
    pub fn update_version_at(&mut self, now: u64) -> (r: u64)
        requires
            old(self).wf(),
            old(self).record().version < u64::MAX,
        ensures
            final(self).wf(),
            final(self)@.len() == old(self)@.len(),
            r == next_version(old(self).record().version, now),
            final(self).record() == (ListsMetaRecord { version: r, ..old(self).record() }),
    {
        self.base.version = version_after(self.base.version, now);
        self.set_version_to_value();
        self.base.version
    }

    /// Moves the version on by the version rule, at the current time.
    pub fn update_version(&mut self) -> (r: u64)
        requires
            old(self).wf(),
            old(self).record().version < u64::MAX,
        ensures
            final(self).wf(),
            final(self)@.len() == old(self)@.len(),
            r > old(self).record().version,
            final(self).record() == (ListsMetaRecord { version: r, ..old(self).record() }),
    {
        let now = now_micros();
        proof {
            lemma_next_version_increases(self.record().version, now);
        }
        self.update_version_at(now)
    }

    /// Makes the record that of a new, empty list: the count goes to 0, the
    /// indices to those of an empty list, the creation and expiration times to
    /// 0, and the version moves on. Returns the new version.
    pub fn initial_meta_value(&mut self) -> (r: u64)
        requires
            old(self).wf(),
            old(self).record().version < u64::MAX,
        ensures
            final(self).wf(),
            r > old(self).record().version,
            final(self).record() == (ListsMetaRecord {
                version: r,
                left_index: INITIAL_LEFT_INDEX,
                right_index: INITIAL_RIGHT_INDEX,
                ctime: 0,
                etime: 0,
                ..lists_with_count(old(self).record(), 0)
            }),
    {
        self.set_count(0);
        self.set_left_index(INITIAL_LEFT_INDEX);
        self.set_right_index(INITIAL_RIGHT_INDEX);
        self.set_etime(0);
        self.set_ctime(0);
        self.update_version()
    }
}

} // verus!
