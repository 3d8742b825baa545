//! The envelope shared by every record kind: the type tag, the encode-side
//! value, the parse-side view over a record's buffer, the staleness
//! predicate and the version rule.
use crate::buffer::{buffer_overwrite, bytes_mut_contents, bytes_contents};
use crate::clock::now_micros;
use crate::storage_define::SUFFIX_RESERVE_LENGTH;
use bytes::{Bytes, BytesMut};
use std::ops::Range;
use vstd::bytes::{
    lemma_auto_spec_u32_to_from_le_bytes, lemma_auto_spec_u64_to_from_le_bytes,
    spec_u32_from_le_bytes, spec_u32_to_le_bytes, spec_u64_from_le_bytes, spec_u64_to_le_bytes,
    u32_from_le_bytes, u32_to_le_bytes, u64_from_le_bytes, u64_to_le_bytes,
};
use vstd::prelude::*;

verus! {

/// Which record layout a byte string uses; its tag is the first byte of
/// every record but the bare data value.
#[derive(Clone, Copy, Debug, PartialEq, Eq, Structural)]
pub enum DataType {
    Strings,
    Hashes,
    Sets,
    Lists,
    ZSets,
    Nones,
}

/// The byte that stands for each type.
pub open spec fn type_tag(t: DataType) -> u8 {
    match t {
        DataType::Strings => 0,
        DataType::Hashes => 1,
        DataType::Sets => 2,
        DataType::Lists => 3,
        DataType::ZSets => 4,
        DataType::Nones => 5,
    }
}

/// The type a byte stands for, if any.
pub open spec fn data_type_of(b: u8) -> Option<DataType> {
    if b == 0 {
        Some(DataType::Strings)
    } else if b == 1 {
        Some(DataType::Hashes)
    } else if b == 2 {
        Some(DataType::Sets)
    } else if b == 3 {
        Some(DataType::Lists)
    } else if b == 4 {
        Some(DataType::ZSets)
    } else if b == 5 {
        Some(DataType::Nones)
    } else {
        None
    }
}

/// The one kind of failure of this layer: stored bytes that do not form a
/// record of the expected layout.
#[derive(Debug)]
pub enum StorageError {
    InvalidFormat(String),
}

pub type Result<T> = core::result::Result<T, StorageError>;

impl DataType {
    pub fn as_u8(self) -> (r: u8)
        ensures
            r == type_tag(self),
    {
        match self {
            DataType::Strings => 0,
            DataType::Hashes => 1,
            DataType::Sets => 2,
            DataType::Lists => 3,
            DataType::ZSets => 4,
            DataType::Nones => 5,
        }
    }

    /// Reads a type tag; a byte outside the closed set is an invalid format.
    pub fn try_from_u8(b: u8) -> (r: Result<DataType>)
        ensures
            match data_type_of(b) {
                Some(t) => r == Ok::<DataType, StorageError>(t),
                None => r matches Err(StorageError::InvalidFormat(_)),
            },
    {
        if b == 0 {
            Ok(DataType::Strings)
        } else if b == 1 {
            Ok(DataType::Hashes)
        } else if b == 2 {
            Ok(DataType::Sets)
        } else if b == 3 {
            Ok(DataType::Lists)
        } else if b == 4 {
            Ok(DataType::ZSets)
        } else if b == 5 {
            Ok(DataType::Nones)
        } else {
            Err(StorageError::InvalidFormat("invalid data type byte".to_string()))
        }
    }
}

/// The tag of every type reads back as that type.
pub proof fn lemma_type_tag_round_trip(t: DataType)
    ensures
        data_type_of(type_tag(t)) == Some(t),
{
}

/// A record is stale iff it has an expiration time and that time has come.
pub open spec fn stale_at(etime: u64, now: u64) -> bool {
    etime != 0 && etime <= now
}

/// A record that expired a microsecond ago is stale (unless that moment is
/// 0, which stands for no expiration); one without an expiration time never
/// is; one that expires later than now is not yet.
pub proof fn lemma_staleness(now: u64, ahead: u64)
    ensures
        now >= 2 ==> stale_at((now - 1) as u64, now),
        !stale_at(0, now),
        ahead > 0 && now + ahead <= u64::MAX ==> !stale_at((now + ahead) as u64, now),
{
}

/// The version that follows `version` when the clock reads `now`: the clock
/// where it is ahead, else one more than before.
pub open spec fn next_version(version: u64, now: u64) -> u64
    recommends
        version < u64::MAX,
{
    if version >= now {
        (version + 1) as u64
    } else {
        now
    }
}

/// The version rule never goes back and never stands still.
pub proof fn lemma_next_version_increases(version: u64, now: u64)
    requires
        version < u64::MAX,
    ensures
        next_version(version, now) > version,
        next_version(version, now) >= now,
{
}

/// Two updates in a row give strictly increasing versions, whatever the
/// clock reads each time, also when it reads the same or goes back.
pub proof fn lemma_update_version_twice(version: u64, now1: u64, now2: u64)
    requires
        version < u64::MAX,
        next_version(version, now1) < u64::MAX,
    ensures
        version < next_version(version, now1),
        next_version(version, now1) < next_version(next_version(version, now1), now2),
{
}

pub fn version_after(version: u64, now: u64) -> (r: u64)
    requires
        version < u64::MAX,
    ensures
        r == next_version(version, now),
{
    if version >= now {
        version + 1
    } else {
        now
    }
}

/// The little-endian 64-bit integer at `start .. start + 8`.
pub open spec fn u64_at(b: Seq<u8>, start: int) -> u64 {
    spec_u64_from_le_bytes(b.subrange(start, start + 8))
}

/// The little-endian 32-bit integer at `start .. start + 4`.
pub open spec fn u32_at(b: Seq<u8>, start: int) -> u32 {
    spec_u32_from_le_bytes(b.subrange(start, start + 4))
}

/// Little-endian bytes of a 64-bit integer.
pub open spec fn le64(x: u64) -> Seq<u8> {
    spec_u64_to_le_bytes(x)
}

/// Little-endian bytes of a 32-bit integer.
pub open spec fn le32(x: u32) -> Seq<u8> {
    spec_u32_to_le_bytes(x)
}

/// Sixteen zero bytes, the reserve region of a fresh value.
pub open spec fn zero_reserve() -> Seq<u8> {
    Seq::new(16, |i: int| 0u8)
}

pub proof fn lemma_le_round_trip(x: u64, y: u32)
    ensures
        le64(x).len() == 8,
        spec_u64_from_le_bytes(le64(x)) == x,
        le32(y).len() == 4,
        spec_u32_from_le_bytes(le32(y)) == y,
{
    lemma_auto_spec_u64_to_from_le_bytes();
    lemma_auto_spec_u32_to_from_le_bytes();
}

pub fn read_u64_at(b: &[u8], start: usize) -> (r: u64)
    requires
        start + 8 <= b@.len(),
    ensures
        r == u64_at(b@, start as int),
{
    let _len = b.len();
    u64_from_le_bytes(&b[start..start + 8])
}

pub fn read_u32_at(b: &[u8], start: usize) -> (r: u32)
    requires
        start + 4 <= b@.len(),
    ensures
        r == u32_at(b@, start as int),
{
    let _len = b.len();
    u32_from_le_bytes(&b[start..start + 4])
}

/// `b` with `patch` written over it at `start`.
pub open spec fn patched(b: Seq<u8>, start: int, patch: Seq<u8>) -> Seq<u8> {
    b.subrange(0, start) + patch + b.subrange(start + patch.len(), b.len() as int)
}

/// Writing over one window keeps the length and every window that lies
/// wholly before or after it, and reads back what was written.
pub proof fn lemma_patched(b: Seq<u8>, start: int, patch: Seq<u8>)
    requires
        0 <= start,
        start + patch.len() <= b.len(),
    ensures
        patched(b, start, patch).len() == b.len(),
        patched(b, start, patch).subrange(start, start + patch.len()) == patch,
        forall|i: int, j: int|
            0 <= i <= j <= start ==> #[trigger] patched(b, start, patch).subrange(i, j)
                == b.subrange(i, j),
        forall|i: int, j: int|
            start + patch.len() <= i <= j <= b.len() ==> #[trigger] patched(
                b,
                start,
                patch,
            ).subrange(i, j) == b.subrange(i, j),
        forall|i: int| 0 <= i < start ==> #[trigger] patched(b, start, patch)[i] == b[i],
{
    let p = patched(b, start, patch);
    assert(p.subrange(start, start + patch.len()) =~= patch);
    assert forall|i: int, j: int| 0 <= i <= j <= start implies #[trigger] p.subrange(i, j)
        == b.subrange(i, j) by {
        assert(p.subrange(i, j) =~= b.subrange(i, j));
    }
    assert forall|i: int, j: int| start + patch.len() <= i <= j <= b.len() implies #[trigger] p.subrange(
        i,
        j,
    ) == b.subrange(i, j) by {
        assert(p.subrange(i, j) =~= b.subrange(i, j));
    }
}

/// A value as a command handler builds it before it is written: the fields
/// that every record kind draws from.
#[derive(Debug)]
pub struct InternalValue {
    pub data_type: DataType,
    pub user_value: Bytes,
    pub reserve: [u8; SUFFIX_RESERVE_LENGTH],
    pub version: u64,
    pub ctime: u64,
    pub etime: u64,
}

impl InternalValue {
    /// The payload as a sequence of bytes.
    pub open spec fn payload(&self) -> Seq<u8> {
        bytes_contents(self.user_value)
    }

    /// A fresh value: zero reserve, version 0, no creation time, and no
    /// expiration.
    pub fn new(data_type: DataType, user_value: Bytes) -> (r: Self)
        ensures
            r.data_type == data_type,
            r.user_value == user_value,
            r.reserve@ == zero_reserve(),
            r.version == 0,
            r.ctime == 0,
            r.etime == 0,
    {
        let r = InternalValue {
            data_type,
            user_value,
            reserve: [0u8; SUFFIX_RESERVE_LENGTH],
            version: 0,
            ctime: 0,
            etime: 0,
        };
        assert(r.reserve@ =~= zero_reserve());
        r
    }

    pub fn set_ctime(&mut self, ctime: u64)
        ensures
            *final(self) == (InternalValue { ctime, ..*old(self) }),
    {
        self.ctime = ctime;
    }

    pub fn set_etime(&mut self, etime: u64)
        ensures
            *final(self) == (InternalValue { etime, ..*old(self) }),
    {
        self.etime = etime;
    }

    /// Expires the value `ttl` microseconds after `now`; where that passes
    /// the largest time, at the largest time.
    pub fn set_relative_timestamp_at(&mut self, now: u64, ttl: u64)
        ensures
            *final(self) == (InternalValue {
                etime: if now + ttl <= u64::MAX {
                    (now + ttl) as u64
                } else {
                    u64::MAX
                },
                ..*old(self)
            }),
    {
        self.etime = now.saturating_add(ttl);
    }

    /// Expires the value `ttl` microseconds from now.
    pub fn set_relative_timestamp(&mut self, ttl: u64)
        ensures
            *final(self) == (InternalValue { etime: final(self).etime, ..*old(self) }),
            final(self).etime >= ttl,
    {
        let now = now_micros();
        self.set_relative_timestamp_at(now, ttl);
    }

    /// Moves the version on by the version rule, for the clock reading `now`,
    /// and returns it.
    pub fn update_version_at(&mut self, now: u64) -> (r: u64)
        requires
            old(self).version < u64::MAX,
        ensures
            r == next_version(old(self).version, now),
            *final(self) == (InternalValue { version: r, ..*old(self) }),
    {
        self.version = version_after(self.version, now);
        self.version
    }

    /// Moves the version on by the version rule, at the current time.
    pub fn update_version(&mut self) -> (r: u64)
        requires
            old(self).version < u64::MAX,
        ensures
            r > old(self).version,
            *final(self) == (InternalValue { version: r, ..*old(self) }),
    {
        let now = now_micros();
        proof {
            lemma_next_version_increases(self.version, now);
        }
        self.update_version_at(now)
    }
}

/// A record read from storage: the buffer it came in, the ranges of its
/// variable parts, and its fixed fields, read once. Each record kind holds
/// one and keeps its fields equal to what its buffer holds.
pub struct ParsedInternalValue {
    pub value: BytesMut,
    pub data_type: DataType,
    pub user_value_range: Range<usize>,
    pub reserve_range: Range<usize>,
    pub version: u64,
    pub ctime: u64,
    pub etime: u64,
}

impl ParsedInternalValue {
    pub open spec fn bytes(&self) -> Seq<u8> {
        bytes_mut_contents(self.value)
    }

    pub fn new(
        value: BytesMut,
        data_type: DataType,
        user_value_range: Range<usize>,
        reserve_range: Range<usize>,
        version: u64,
        ctime: u64,
        etime: u64,
    ) -> (r: Self)
        ensures
            r == (ParsedInternalValue {
                value,
                data_type,
                user_value_range,
                reserve_range,
                version,
                ctime,
                etime,
            }),
    {
        ParsedInternalValue {
            value,
            data_type,
            user_value_range,
            reserve_range,
            version,
            ctime,
            etime,
        }
    }

    pub fn is_stale_at(&self, now: u64) -> (r: bool)
        ensures
            r == stale_at(self.etime, now),
    {
        self.etime != 0 && self.etime <= now
    }

    /// Writes the eight little-endian bytes of `x` at `start`, leaving the
    /// fields as they are.
    pub fn write_u64(&mut self, start: usize, x: u64)
        requires
            start + 8 <= old(self).bytes().len(),
        ensures
            final(self).bytes() == patched(old(self).bytes(), start as int, le64(x)),
            final(self).bytes().len() == old(self).bytes().len(),
            u64_at(final(self).bytes(), start as int) == x,
            final(self).data_type == old(self).data_type,
            final(self).user_value_range == old(self).user_value_range,
            final(self).reserve_range == old(self).reserve_range,
            final(self).version == old(self).version,
            final(self).ctime == old(self).ctime,
            final(self).etime == old(self).etime,
    {
        let patch = u64_to_le_bytes(x);
        proof {
            lemma_le_round_trip(x, 0);
            lemma_patched(self.bytes(), start as int, le64(x));
        }
        buffer_overwrite(&mut self.value, start, patch.as_slice());
    }

    /// Writes the four little-endian bytes of `x` at `start`, leaving the
    /// fields as they are.
    pub fn write_u32(&mut self, start: usize, x: u32)
        requires
            start + 4 <= old(self).bytes().len(),
        ensures
            final(self).bytes() == patched(old(self).bytes(), start as int, le32(x)),
            final(self).bytes().len() == old(self).bytes().len(),
            u32_at(final(self).bytes(), start as int) == x,
            final(self).data_type == old(self).data_type,
            final(self).user_value_range == old(self).user_value_range,
            final(self).reserve_range == old(self).reserve_range,
            final(self).version == old(self).version,
            final(self).ctime == old(self).ctime,
            final(self).etime == old(self).etime,
    {
        let patch = u32_to_le_bytes(x);
        proof {
            lemma_le_round_trip(0, x);
            lemma_patched(self.bytes(), start as int, le32(x));
        }
        buffer_overwrite(&mut self.value, start, patch.as_slice());
    }
}

} // verus!
