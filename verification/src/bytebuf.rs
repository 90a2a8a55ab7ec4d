//! Trusted interface to the `bytes` crate's growable byte buffer.
//!
//! The framer keeps its rolling accumulator in a `bytes::BytesMut`.  The type
//! is opaque to the verifier, so its contents are named by `bytes_mut_view`
//! and each method the framer relies on is wrapped with a contract stating
//! what the crate's documentation promises of it.

use vstd::prelude::*;

verus! {

#[verifier::external_type_specification]
#[verifier::external_body]
pub struct ExBytesMut(bytes::BytesMut);

/// The bytes currently held by a `BytesMut`, oldest first.
pub uninterp spec fn bytes_mut_view(b: bytes::BytesMut) -> Seq<u8>;

/// Relies on BytesMut::with_capacity: the new buffer contains no data.
#[verifier::external_body]
pub fn bm_with_capacity(capacity: usize) -> (r: bytes::BytesMut)
    ensures
        bytes_mut_view(r) == Seq::<u8>::empty(),
{
    bytes::BytesMut::with_capacity(capacity)
}

/// Relies on BytesMut::len: the number of bytes contained in the buffer.
#[verifier::external_body]
pub fn bm_len(b: &bytes::BytesMut) -> (r: usize)
    ensures
        r == bytes_mut_view(*b).len(),
{
    b.len()
}

/// Relies on BytesMut::extend_from_slice: appends the slice's bytes to the
/// end of the buffer.
#[verifier::external_body]
pub fn bm_extend_from_slice(b: &mut bytes::BytesMut, data: &[u8])
    ensures
        bytes_mut_view(*final(b)) == bytes_mut_view(*old(b)) + data@,
{
    b.extend_from_slice(data);
}

/// Relies on BytesMut::clear: removes all data from the buffer.
#[verifier::external_body]
pub fn bm_clear(b: &mut bytes::BytesMut)
    ensures
        bytes_mut_view(*final(b)) == Seq::<u8>::empty(),
{
    b.clear();
}

/// Relies on Buf::advance for BytesMut: discards the first `cnt` bytes; it
/// panics when `cnt` exceeds the length, which the precondition rules out.
#[verifier::external_body]
pub fn bm_advance(b: &mut bytes::BytesMut, cnt: usize)
    requires
        cnt <= bytes_mut_view(*old(b)).len(),
    ensures
        bytes_mut_view(*final(b)) == bytes_mut_view(*old(b)).skip(cnt as int),
{
    bytes::Buf::advance(b, cnt);
}

/// Relies on BytesMut::split_to: afterwards `b` holds the bytes from `at`
/// on and the returned buffer holds the first `at` bytes; it panics when
/// `at` exceeds the length, which the precondition rules out.
#[verifier::external_body]
pub fn bm_split_to(b: &mut bytes::BytesMut, at: usize) -> (r: bytes::BytesMut)
    requires
        at <= bytes_mut_view(*old(b)).len(),
    ensures
        bytes_mut_view(r) == bytes_mut_view(*old(b)).take(at as int),
        bytes_mut_view(*final(b)) == bytes_mut_view(*old(b)).skip(at as int),
{
    b.split_to(at)
}

/// Relies on `<BytesMut as AsRef<[u8]>>::as_ref`: a view of the contained
/// bytes as a slice.
#[verifier::external_body]
pub fn bm_as_slice<'a>(b: &'a bytes::BytesMut) -> (r: &'a [u8])
    ensures
        r@ == bytes_mut_view(*b),
{
    b.as_ref()
}

} // verus!
