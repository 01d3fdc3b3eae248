//! The byte containers of the `bytes` crate, as the verified code sees them.
//!
//! `Bytes` and `BytesMut` are opaque to the verifier. Their contents are
//! named by two uninterpreted functions, and every operation the library
//! performs on them goes through one of the trusted items of this module.
//! Nothing here is proved: each contract restates what the `bytes` crate
//! documents for the operation it covers.

use bytes::{Buf, BufMut, Bytes, BytesMut};
use vstd::prelude::*;

verus! {

#[verifier::external_type_specification]
#[verifier::external_body]
pub struct ExBytes(Bytes);

#[verifier::external_type_specification]
#[verifier::external_body]
pub struct ExBytesMut(BytesMut);

/// The bytes an immutable, reference-counted byte view holds, in order.
pub uninterp spec fn payload(b: Bytes) -> Seq<u8>;

/// The bytes a growable FIFO byte buffer holds, oldest first.
pub uninterp spec fn contents(buf: BytesMut) -> Seq<u8>;

/// Big-endian digits of `x` in base 256, exactly `width` of them; digits
/// beyond the width are dropped from the front.
pub open spec fn be_bytes(x: nat, width: nat) -> Seq<u8>
    decreases width,
{
    if width == 0 {
        Seq::empty()
    } else {
        be_bytes(x / 256, (width - 1) as nat).push((x % 256) as u8)
    }
}

/// The number whose big-endian base-256 digits are `s`.
pub open spec fn be_value(s: Seq<u8>) -> nat
    decreases s.len(),
{
    if s.len() == 0 {
        0
    } else {
        be_value(s.drop_last()) * 256 + s.last() as nat
    }
}

/// `Bytes::clone`: the clone is a second handle on the same bytes.
pub assume_specification[ <Bytes as Clone>::clone ](b: &Bytes) -> (r: Bytes)
    ensures
        payload(r) == payload(*b),
;

/// `Bytes::len`: the number of bytes in the view.
pub assume_specification[ Bytes::len ](b: &Bytes) -> (n: usize)
    ensures
        n == payload(*b).len(),
;

/// `Bytes::copy_from_slice`: a new view holding a copy of `data`.
pub assume_specification[ Bytes::copy_from_slice ](data: &[u8]) -> (b: Bytes)
    ensures
        payload(b) == data@,
;

/// `Bytes::as_ref`: the view's bytes as a slice.
#[verifier::external_body]
pub(crate) fn payload_slice(b: &Bytes) -> (s: &[u8])
    ensures
        s@ == payload(*b),
{
    b.as_ref()
}

/// `Bytes::eq`: two views are equal exactly when they hold the same bytes.
#[verifier::external_body]
pub(crate) fn same_payload(a: &Bytes, b: &Bytes) -> (same: bool)
    ensures
        same == (payload(*a) == payload(*b)),
{
    a.eq(b)
}

/// `BytesMut::with_capacity`: an empty buffer. The capacity is a
/// reservation only; `std` refuses one above `isize::MAX`.
pub assume_specification[ BytesMut::with_capacity ](capacity: usize) -> (buf: BytesMut)
    requires
        capacity <= isize::MAX,
    ensures
        contents(buf).len() == 0,
;

/// `BytesMut::len`: the number of bytes waiting in the buffer.
pub assume_specification[ BytesMut::len ](buf: &BytesMut) -> (n: usize)
    ensures
        n == contents(*buf).len(),
;

/// `BytesMut::as_ref`: the waiting bytes as a slice, oldest first; the
/// buffer is left as it is.
#[verifier::external_body]
pub(crate) fn pending(buf: &BytesMut) -> (s: &[u8])
    ensures
        s@ == contents(*buf),
{
    buf.as_ref()
}

/// `Buf::advance` on a `BytesMut`: drops the `cnt` oldest bytes. It panics
/// when `cnt` exceeds the length, which `requires` excludes.
#[verifier::external_body]
pub(crate) fn consume(buf: &mut BytesMut, cnt: usize)
    requires
        cnt <= contents(*old(buf)).len(),
    ensures
        contents(*final(buf)) == contents(*old(buf)).skip(cnt as int),
{
    buf.advance(cnt)
}

/// `Buf::copy_to_bytes` on a `BytesMut`: splits the `len` oldest bytes off
/// the buffer and hands them out as an immutable view. Nothing is copied:
/// the view shares the buffer's memory. It panics when `len` exceeds the
/// length, which `requires` excludes.
#[verifier::external_body]
pub(crate) fn take_bytes(buf: &mut BytesMut, len: usize) -> (b: Bytes)
    requires
        len <= contents(*old(buf)).len(),
    ensures
        payload(b) == contents(*old(buf)).take(len as int),
        contents(*final(buf)) == contents(*old(buf)).skip(len as int),
{
    buf.copy_to_bytes(len)
}

/// `BufMut::put_u8` on a `BytesMut`: appends one byte. The buffer grows
/// as needed and panics only when the new length overflows.
#[verifier::external_body]
pub(crate) fn put_u8(buf: &mut BytesMut, n: u8)
    requires
        contents(*old(buf)).len() + 1 <= isize::MAX,
    ensures
        contents(*final(buf)) == contents(*old(buf)).push(n),
{
    buf.put_u8(n)
}

/// `BufMut::put_u16` on a `BytesMut`: appends the two bytes of `n`, most
/// significant first.
#[verifier::external_body]
pub(crate) fn put_u16(buf: &mut BytesMut, n: u16)
    requires
        contents(*old(buf)).len() + 2 <= isize::MAX,
    ensures
        contents(*final(buf)) == contents(*old(buf)) + be_bytes(n as nat, 2),
{
    buf.put_u16(n)
}

/// `BufMut::put_u32` on a `BytesMut`: appends the four bytes of `n`, most
/// significant first.
#[verifier::external_body]
pub(crate) fn put_u32(buf: &mut BytesMut, n: u32)
    requires
        contents(*old(buf)).len() + 4 <= isize::MAX,
    ensures
        contents(*final(buf)) == contents(*old(buf)) + be_bytes(n as nat, 4),
{
    buf.put_u32(n)
}

/// `BufMut::put_u64` on a `BytesMut`: appends the eight bytes of `n`, most
/// significant first.
#[verifier::external_body]
pub(crate) fn put_u64(buf: &mut BytesMut, n: u64)
    requires
        contents(*old(buf)).len() + 8 <= isize::MAX,
    ensures
        contents(*final(buf)) == contents(*old(buf)) + be_bytes(n as nat, 8),
{
    buf.put_u64(n)
}

/// `BufMut::put_slice` on a `BytesMut`: appends the bytes of `src` in
/// order.
#[verifier::external_body]
pub(crate) fn put_slice(buf: &mut BytesMut, src: &[u8])
    requires
        contents(*old(buf)).len() + src@.len() <= isize::MAX,
    ensures
        contents(*final(buf)) == contents(*old(buf)) + src@,
{
    buf.put_slice(src)
}

} // verus!
