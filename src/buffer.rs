//! The byte buffers of the `bytes` crate, as seen by the verified code.
//!
//! Both buffer types are opaque to the verifier; their contents are named by
//! `bytes_mut_view` and `bytes_view`, and each method that the decoders call
//! has a small wrapper whose contract speaks of those names.
use vstd::prelude::*;
use bytes::{Buf, Bytes, BytesMut};

verus! {

#[verifier::external_type_specification]
#[verifier::external_body]
pub struct ExBytesMut(BytesMut);

#[verifier::external_type_specification]
#[verifier::external_body]
pub struct ExBytes(Bytes);

/// The bytes currently held by a `BytesMut`, in order.
pub uninterp spec fn bytes_mut_view(b: BytesMut) -> Seq<u8>;

/// The bytes held by a `Bytes`, in order.
pub uninterp spec fn bytes_view(b: Bytes) -> Seq<u8>;

/// Relies on `BytesMut::len`: the number of bytes held.
#[verifier::external_body]
pub(crate) fn mut_len(b: &BytesMut) -> (r: usize)
    ensures
        r == bytes_mut_view(*b).len(),
{
    b.len()
}

/// Relies on indexing a `BytesMut` through its `Deref` to `[u8]`.
#[verifier::external_body]
pub(crate) fn mut_byte_at(b: &BytesMut, i: usize) -> (r: u8)
    requires
        i < bytes_mut_view(*b).len(),
    ensures
        r == bytes_mut_view(*b)[i as int],
{
    b[i]
}

/// Relies on `<BytesMut as Buf>::advance`: drops the first `n` bytes
/// (it panics when `n` exceeds the length).
#[verifier::external_body]
pub(crate) fn mut_advance(b: &mut BytesMut, n: usize)
    requires
        n <= bytes_mut_view(*old(b)).len(),
    ensures
        bytes_mut_view(*final(b)) == bytes_mut_view(*old(b)).subrange(
            n as int,
            bytes_mut_view(*old(b)).len() as int,
        ),
{
    b.advance(n)
}

/// Relies on `BytesMut::split_to`: returns the first `n` bytes and keeps the
/// rest (it panics when `n` exceeds the length).
#[verifier::external_body]
pub(crate) fn mut_split_to(b: &mut BytesMut, n: usize) -> (r: BytesMut)
    requires
        n <= bytes_mut_view(*old(b)).len(),
    ensures
        bytes_mut_view(r) == bytes_mut_view(*old(b)).subrange(0, n as int),
        bytes_mut_view(*final(b)) == bytes_mut_view(*old(b)).subrange(
            n as int,
            bytes_mut_view(*old(b)).len() as int,
        ),
{
    b.split_to(n)
}

/// Relies on `BytesMut::freeze`: the same bytes, now immutable.
#[verifier::external_body]
pub(crate) fn freeze(b: BytesMut) -> (r: Bytes)
    ensures
        bytes_view(r) == bytes_mut_view(b),
{
    b.freeze()
}

/// Relies on `Bytes::len`: the number of bytes held.
#[verifier::external_body]
pub(crate) fn bytes_len(b: &Bytes) -> (r: usize)
    ensures
        r == bytes_view(*b).len(),
{
    b.len()
}

/// Relies on indexing a `Bytes` through its `Deref` to `[u8]`.
#[verifier::external_body]
pub(crate) fn bytes_byte_at(b: &Bytes, i: usize) -> (r: u8)
    requires
        i < bytes_view(*b).len(),
    ensures
        r == bytes_view(*b)[i as int],
{
    b[i]
}

/// Relies on `Bytes::split_to`: returns the first `n` bytes and keeps the
/// rest (it panics when `n` exceeds the length).
#[verifier::external_body]
pub(crate) fn bytes_split_to(b: &mut Bytes, n: usize) -> (r: Bytes)
    requires
        n <= bytes_view(*old(b)).len(),
    ensures
        bytes_view(r) == bytes_view(*old(b)).subrange(0, n as int),
        bytes_view(*final(b)) == bytes_view(*old(b)).subrange(
            n as int,
            bytes_view(*old(b)).len() as int,
        ),
{
    b.split_to(n)
}

/// Relies on `From<Bytes> for Vec<u8>`: the same bytes in a vector.
#[verifier::external_body]
pub(crate) fn bytes_into_vec(b: Bytes) -> (r: Vec<u8>)
    ensures
        r@ == bytes_view(b),
{
    Vec::from(b)
}

} // verus!
