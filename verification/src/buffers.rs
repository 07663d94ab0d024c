//! Trusted interface to the byte buffers of the `bytes` crate.
//!
//! The codec and connection logic accumulates stream data in
//! `bytes::BytesMut` and hands decoded messages out as `bytes::Bytes`.
//! Both types are opaque to the verifier, so this module declares them and
//! names their contents: `bytes_mut_view` and `bytes_view` give the byte
//! sequence a buffer holds, and every wrapper below states, over those two
//! names, what one method of the `bytes` crate does to that sequence.
//!
//! Allocation sizes in Rust are bounded by `isize::MAX`, and the growing
//! operations of `bytes` panic beyond that bound, so the wrappers that
//! append require the grown length to stay within it.

use vstd::prelude::*;

use bytes::Buf;
use bytes::BufMut;
use bytes::Bytes;
use bytes::BytesMut;

verus! {

#[verifier::external_type_specification]
#[verifier::external_body]
pub struct ExBytesMut(BytesMut);

#[verifier::external_type_specification]
#[verifier::external_body]
pub struct ExBytes(Bytes);

/// The bytes held by a `BytesMut`, front to back.
pub uninterp spec fn bytes_mut_view(b: BytesMut) -> Seq<u8>;

/// The bytes held by a `Bytes`, front to back.
pub uninterp spec fn bytes_view(b: Bytes) -> Seq<u8>;

/// Relies on `BytesMut::with_capacity`: the new buffer holds no bytes.
#[verifier::external_body]
pub fn bm_with_capacity(capacity: usize) -> (r: BytesMut)
    ensures
        bytes_mut_view(r) == Seq::<u8>::empty(),
{
    BytesMut::with_capacity(capacity)
}

/// Relies on `BytesMut::len`: the number of bytes the buffer holds.
#[verifier::external_body]
pub fn bm_len(b: &BytesMut) -> (r: usize)
    ensures
        r == bytes_mut_view(*b).len(),
{
    b.len()
}

/// Relies on `BytesMut::capacity`: capacity never falls below the length.
#[verifier::external_body]
pub fn bm_capacity(b: &BytesMut) -> (r: usize)
    ensures
        r >= bytes_mut_view(*b).len(),
{
    b.capacity()
}

/// Relies on `<BytesMut as AsRef<[u8]>>::as_ref`: a view of the held bytes.
#[verifier::external_body]
pub fn bm_as_slice(b: &BytesMut) -> (r: &[u8])
    ensures
        r@ == bytes_mut_view(*b),
{
    b.as_ref()
}

/// Relies on `BytesMut::split_to`: the buffer keeps `[at, len)` and the
/// returned buffer holds `[0, at)`; panics if `at > len`, hence the bound.
#[verifier::external_body]
pub fn bm_split_to(b: &mut BytesMut, at: usize) -> (r: BytesMut)
    requires
        at <= bytes_mut_view(*old(b)).len(),
    ensures
        bytes_mut_view(r) == bytes_mut_view(*old(b)).take(at as int),
        bytes_mut_view(*final(b)) == bytes_mut_view(*old(b)).skip(at as int),
{
    b.split_to(at)
}

/// Relies on `BytesMut::truncate`: keeps the first `len` bytes and has no
/// effect when `len` is not below the current length.
#[verifier::external_body]
pub fn bm_truncate(b: &mut BytesMut, len: usize)
    ensures
        bytes_mut_view(*final(b)) == if len <= bytes_mut_view(*old(b)).len() {
            bytes_mut_view(*old(b)).take(len as int)
        } else {
            bytes_mut_view(*old(b))
        },
{
    b.truncate(len)
}

/// Relies on `<BytesMut as Buf>::advance`: drops the first `cnt` bytes;
/// panics if `cnt` exceeds the length, hence the bound.
#[verifier::external_body]
pub fn bm_advance(b: &mut BytesMut, cnt: usize)
    requires
        cnt <= bytes_mut_view(*old(b)).len(),
    ensures
        bytes_mut_view(*final(b)) == bytes_mut_view(*old(b)).skip(cnt as int),
{
    b.advance(cnt)
}

/// Relies on `BytesMut::reserve`: grows spare capacity only, leaving the
/// held bytes alone; panics when the new capacity cannot be allocated.
#[verifier::external_body]
pub fn bm_reserve(b: &mut BytesMut, additional: usize)
    requires
        bytes_mut_view(*old(b)).len() + additional <= isize::MAX,
    ensures
        bytes_mut_view(*final(b)) == bytes_mut_view(*old(b)),
{
    b.reserve(additional)
}

/// Relies on `<BytesMut as BufMut>::put_u8`: appends one byte, growing the
/// buffer as needed; the grown length must stay allocatable.
#[verifier::external_body]
pub fn bm_put_u8(b: &mut BytesMut, val: u8)
    requires
        bytes_mut_view(*old(b)).len() + 1 <= isize::MAX,
    ensures
        bytes_mut_view(*final(b)) == bytes_mut_view(*old(b)).push(val),
{
    b.put_u8(val)
}

/// Relies on `<BytesMut as BufMut>::put_slice`: appends the given bytes,
/// growing the buffer as needed; the grown length must stay allocatable.
#[verifier::external_body]
pub fn bm_put_slice(b: &mut BytesMut, src: &[u8])
    requires
        bytes_mut_view(*old(b)).len() + src@.len() <= isize::MAX,
    ensures
        bytes_mut_view(*final(b)) == bytes_mut_view(*old(b)) + src@,
{
    b.put_slice(src)
}

/// Relies on `<BytesMut as BufMut>::remaining_mut`: how many bytes may
/// still be appended, which `bytes` computes from the maximum allocation
/// size `isize::MAX`.
#[verifier::external_body]
pub fn bm_remaining_mut(b: &BytesMut) -> (r: usize)
    ensures
        r == isize::MAX - bytes_mut_view(*b).len(),
{
    b.remaining_mut()
}

/// Relies on `<BytesMut as Clone>::clone`: the copy holds the same bytes.
#[verifier::external_body]
pub fn bm_clone(b: &BytesMut) -> (r: BytesMut)
    ensures
        bytes_mut_view(r) == bytes_mut_view(*b),
{
    b.clone()
}

/// Relies on `BytesMut::freeze`: the frozen buffer holds the same bytes.
#[verifier::external_body]
pub fn bm_freeze(b: BytesMut) -> (r: Bytes)
    ensures
        bytes_view(r) == bytes_mut_view(b),
{
    b.freeze()
}

/// Relies on `Bytes::len`: the number of bytes held.
#[verifier::external_body]
pub fn bytes_len(b: &Bytes) -> (r: usize)
    ensures
        r == bytes_view(*b).len(),
{
    b.len()
}

/// Relies on `<Bytes as AsRef<[u8]>>::as_ref`: a view of the held bytes.
#[verifier::external_body]
pub fn bytes_as_slice(b: &Bytes) -> (r: &[u8])
    ensures
        r@ == bytes_view(*b),
{
    b.as_ref()
}

} // verus!
