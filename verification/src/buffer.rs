//! The byte queue of a connection: `bytes::BytesMut`, with the contracts under
//! which the rest of the library uses it.

use bytes::Buf;
use bytes::BytesMut;
use vstd::prelude::*;

verus! {

/// Trusted: `bytes::BytesMut` as a type whose inside is not looked into.
#[verifier::external_type_specification]
#[verifier::external_body]
pub struct ExBytesMut(bytes::BytesMut);

/// The bytes that a buffer holds, first to last.
pub uninterp spec fn contents(b: BytesMut) -> Seq<u8>;

/// Trusted: `BytesMut::with_capacity` gives a buffer of length 0, whatever
/// the capacity asked for.
#[verifier::external_body]
pub(crate) fn with_capacity(capacity: usize) -> (b: BytesMut)
    ensures
        contents(b) == Seq::<u8>::empty(),
{
    BytesMut::with_capacity(capacity)
}

/// Trusted: `BytesMut::len` is the number of bytes held.
#[verifier::external_body]
pub(crate) fn len(b: &BytesMut) -> (n: usize)
    ensures
        n == contents(*b).len(),
{
    b.len()
}

/// Trusted: `BytesMut::is_empty` tells whether no byte is held.
#[verifier::external_body]
pub(crate) fn is_empty(b: &BytesMut) -> (e: bool)
    ensures
        e == (contents(*b).len() == 0),
{
    b.is_empty()
}

/// Trusted: `BytesMut::extend_from_slice` appends the slice at the tail and
/// leaves what was held in place.
#[verifier::external_body]
pub(crate) fn extend_from_slice(b: &mut BytesMut, extend: &[u8])
    ensures
        contents(*final(b)) == contents(*old(b)) + extend@,
{
    b.extend_from_slice(extend)
}

/// Trusted: `BytesMut::split_to` hands out the first `at` bytes and keeps the
/// rest; it panics where `at` is past the end, which `requires` leaves out.
#[verifier::external_body]
pub(crate) fn split_to(b: &mut BytesMut, at: usize) -> (head: BytesMut)
    requires
        at <= contents(*old(b)).len(),
    ensures
        contents(head) == contents(*old(b)).take(at as int),
        contents(*final(b)) == contents(*old(b)).skip(at as int),
{
    b.split_to(at)
}

/// Trusted: `Buf::advance` on a `BytesMut` drops the first `cnt` bytes; it
/// panics where `cnt` is past the end, which `requires` leaves out.
#[verifier::external_body]
pub(crate) fn advance(b: &mut BytesMut, cnt: usize)
    requires
        cnt <= contents(*old(b)).len(),
    ensures
        contents(*final(b)) == contents(*old(b)).skip(cnt as int),
{
    b.advance(cnt)
}

/// Trusted: `Buf::chunk` on a `BytesMut` is the whole of what is held, as one
/// slice.
#[verifier::external_body]
pub(crate) fn chunk(b: &BytesMut) -> (s: &[u8])
    ensures
        s@ == contents(*b),
{
    b.chunk()
}

} // verus!
