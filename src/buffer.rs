//! The byte buffers of the `bytes` crate, as records are built and read in
//! them. `Bytes` holds a payload handed in by a caller; `BytesMut` holds a
//! whole record. Each buffer is modelled by the sequence of bytes it holds.
use bytes::{Buf, BufMut, Bytes, BytesMut};
use vstd::bytes::spec_u64_to_le_bytes;
use vstd::prelude::*;

verus! {

#[verifier::external_type_specification]
#[verifier::external_body]
pub struct ExBytes(Bytes);

#[verifier::external_type_specification]
#[verifier::external_body]
pub struct ExBytesMut(BytesMut);

/// The bytes that a `Bytes` holds.
pub uninterp spec fn bytes_contents(b: Bytes) -> Seq<u8>;

/// The bytes that a `BytesMut` holds.
pub uninterp spec fn bytes_mut_contents(b: BytesMut) -> Seq<u8>;

/// Relies on `Deref for Bytes`: a view of the held bytes. A slice never
/// spans more than `isize::MAX` bytes.
#[verifier::external_body]
pub(crate) fn bytes_as_slice(b: &Bytes) -> (r: &[u8])
    ensures
        r@ == bytes_contents(*b),
        r@.len() <= isize::MAX,
{
    b
}

/// Relies on `BytesMut::with_capacity`: an empty buffer.
#[verifier::external_body]
pub(crate) fn buffer_with_capacity(capacity: usize) -> (r: BytesMut)
    ensures
        bytes_mut_contents(r) == Seq::<u8>::empty(),
{
    BytesMut::with_capacity(capacity)
}

/// Relies on `From<&[u8]> for BytesMut`: a buffer holding a copy of `src`.
#[verifier::external_body]
pub(crate) fn buffer_from_slice(src: &[u8]) -> (r: BytesMut)
    ensures
        bytes_mut_contents(r) == src@,
{
    BytesMut::from(src)
}

/// Relies on `BytesMut::len`: the number of bytes held.
#[verifier::external_body]
pub(crate) fn buffer_len(b: &BytesMut) -> (r: usize)
    ensures
        r == bytes_mut_contents(*b).len(),
{
    b.len()
}

/// Relies on `Deref for BytesMut`: a view of the held bytes.
#[verifier::external_body]
pub(crate) fn buffer_as_slice(b: &BytesMut) -> (r: &[u8])
    ensures
        r@ == bytes_mut_contents(*b),
{
    b
}

/// Relies on `BufMut::put_u8` of `BytesMut`: appends one byte. It panics
/// past `isize::MAX` bytes.
#[verifier::external_body]
pub(crate) fn buffer_put_u8(b: &mut BytesMut, n: u8)
    requires
        bytes_mut_contents(*old(b)).len() + 1 <= isize::MAX,
    ensures
        bytes_mut_contents(*final(b)) == bytes_mut_contents(*old(b)).push(n),
{
    b.put_u8(n)
}

/// Relies on `BufMut::put_slice` of `BytesMut`: appends `src`. It panics
/// past `isize::MAX` bytes.
#[verifier::external_body]
pub(crate) fn buffer_put_slice(b: &mut BytesMut, src: &[u8])
    requires
        bytes_mut_contents(*old(b)).len() + src@.len() <= isize::MAX,
    ensures
        bytes_mut_contents(*final(b)) == bytes_mut_contents(*old(b)) + src@,
{
    b.put_slice(src)
}

/// Relies on `BufMut::put_u64_le` of `BytesMut`: appends the eight
/// little-endian bytes of `n`. It panics past `isize::MAX` bytes.
#[verifier::external_body]
pub(crate) fn buffer_put_u64_le(b: &mut BytesMut, n: u64)
    requires
        bytes_mut_contents(*old(b)).len() + 8 <= isize::MAX,
    ensures
        bytes_mut_contents(*final(b)) == bytes_mut_contents(*old(b)) + spec_u64_to_le_bytes(n),
{
    b.put_u64_le(n)
}

/// Relies on `DerefMut for BytesMut` and `copy_from_slice`: overwrites the
/// bytes at `start .. start + src.len()` with `src`, keeping the length.
#[verifier::external_body]
pub(crate) fn buffer_overwrite(b: &mut BytesMut, start: usize, src: &[u8])
    requires
        start + src@.len() <= bytes_mut_contents(*old(b)).len(),
    ensures
        bytes_mut_contents(*final(b)) == bytes_mut_contents(*old(b)).subrange(0, start as int)
            + src@ + bytes_mut_contents(*old(b)).subrange(
            start + src@.len(),
            bytes_mut_contents(*old(b)).len() as int,
        ),
{
    b[start..start + src.len()].copy_from_slice(src)
}

/// Relies on `BytesMut::truncate`: keeps the first `len` bytes, or all of
/// them where there are fewer.
#[verifier::external_body]
pub(crate) fn buffer_truncate(b: &mut BytesMut, len: usize)
    ensures
        bytes_mut_contents(*final(b)) == if len <= bytes_mut_contents(*old(b)).len() {
            bytes_mut_contents(*old(b)).subrange(0, len as int)
        } else {
            bytes_mut_contents(*old(b))
        },
{
    b.truncate(len)
}

/// Relies on `Buf::advance` of `BytesMut`: drops the first `cnt` bytes. It
/// panics where fewer are held.
#[verifier::external_body]
pub(crate) fn buffer_advance(b: &mut BytesMut, cnt: usize)
    requires
        cnt <= bytes_mut_contents(*old(b)).len(),
    ensures
        bytes_mut_contents(*final(b)) == bytes_mut_contents(*old(b)).subrange(
            cnt as int,
            bytes_mut_contents(*old(b)).len() as int,
        ),
{
    b.advance(cnt)
}

} // verus!
