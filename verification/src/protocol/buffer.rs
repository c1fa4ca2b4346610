//! Byte buffers of the `bytes` crate.

use bytes::{Bytes, BytesMut};
use vstd::prelude::*;

use crate::protocol::big_endian::{be, be_i64};

verus! {

/// The growable buffer `bytes::BytesMut`.
#[verifier::external_type_specification]
#[verifier::external_body]
pub struct ExBytesMut(bytes::BytesMut);

/// The frozen buffer `bytes::Bytes`.
#[verifier::external_type_specification]
#[verifier::external_body]
pub struct ExBytes(bytes::Bytes);

/// The bytes that a growable buffer holds.
pub uninterp spec fn held(b: BytesMut) -> Seq<u8>;

/// The bytes that a frozen buffer holds.
pub uninterp spec fn frozen(b: Bytes) -> Seq<u8>;

/// `BytesMut::new` gives a buffer that holds nothing.
#[verifier::external_body]
pub(crate) fn new_buffer() -> (r: BytesMut)
    ensures
        held(r) == Seq::<u8>::empty(),
{
    BytesMut::new()
}

/// `BytesMut::put_slice` of the trait `BufMut` appends the given bytes. The buffer grows by
/// doubling, so a length up to half of the largest allocation leaves room for it.
#[verifier::external_body]
pub(crate) fn put_slice(b: &mut BytesMut, data: &[u8])
    requires
        held(*old(b)).len() + data@.len() <= isize::MAX / 2,
    ensures
        held(*final(b)) == held(*old(b)) + data@,
{
    bytes::BufMut::put_slice(b, data)
}

/// `BytesMut::put_u16` of the trait `BufMut` appends two bytes, the most significant first.
#[verifier::external_body]
pub(crate) fn put_u16(b: &mut BytesMut, n: u16)
    requires
        held(*old(b)).len() + 2 <= isize::MAX / 2,
    ensures
        held(*final(b)) == held(*old(b)) + be(n as nat, 2),
{
    bytes::BufMut::put_u16(b, n)
}

/// `BytesMut::put_u32` of the trait `BufMut` appends four bytes, the most significant first.
#[verifier::external_body]
pub(crate) fn put_u32(b: &mut BytesMut, n: u32)
    requires
        held(*old(b)).len() + 4 <= isize::MAX / 2,
    ensures
        held(*final(b)) == held(*old(b)) + be(n as nat, 4),
{
    bytes::BufMut::put_u32(b, n)
}

/// `BytesMut::put_i64` of the trait `BufMut` appends the eight bytes of the two's complement
/// form, the most significant first.
#[verifier::external_body]
pub(crate) fn put_i64(b: &mut BytesMut, n: i64)
    requires
        held(*old(b)).len() + 8 <= isize::MAX / 2,
    ensures
        held(*final(b)) == held(*old(b)) + be_i64(n as int),
{
    bytes::BufMut::put_i64(b, n)
}

/// `BytesMut::freeze` keeps the bytes.
#[verifier::external_body]
pub(crate) fn freeze(b: BytesMut) -> (r: Bytes)
    ensures
        frozen(r) == held(b),
{
    b.freeze()
}

/// `BytesMut::as_ref` of the trait `AsRef<[u8]>` shows the bytes.
#[verifier::external_body]
pub(crate) fn contents(b: &BytesMut) -> (r: &[u8])
    ensures
        r@ == held(*b),
{
    b.as_ref()
}

/// `BytesMut::advance` of the trait `Buf` drops the given number of bytes at the front.
#[verifier::external_body]
pub(crate) fn advance(b: &mut BytesMut, n: usize)
    requires
        n <= held(*old(b)).len(),
    ensures
        held(*final(b)) == held(*old(b)).skip(n as int),
{
    bytes::Buf::advance(b, n)
}

} // verus!
