//! The stream buffer, a `bytes::BytesMut`, and the few of its operations that
//! the decoder uses.
use vstd::prelude::*;
use bytes::BytesMut;

verus! {

#[verifier::external_type_specification]
#[verifier::external_body]
pub struct ExBytesMut(bytes::BytesMut);

/// The bytes that a buffer holds, front first.
pub uninterp spec fn buffered(b: BytesMut) -> Seq<u8>;

/// Relies on `BytesMut::new`: a new buffer holds no bytes.
#[verifier::external_body]
pub(crate) fn buffer_new() -> (r: BytesMut)
    ensures
        buffered(r) == Seq::<u8>::empty(),
{
    BytesMut::new()
}

/// Relies on `BytesMut`'s `AsRef<[u8]>`: the slice of the bytes it holds.
#[verifier::external_body]
pub(crate) fn buffer_bytes(b: &BytesMut) -> (r: &[u8])
    ensures
        r@ == buffered(*b),
{
    b.as_ref()
}

/// Relies on `BytesMut::extend_from_slice`: appends the bytes at the back.
#[verifier::external_body]
pub(crate) fn buffer_extend(b: &mut BytesMut, data: &[u8])
    ensures
        buffered(*final(b)) == buffered(*old(b)) + data@,
{
    b.extend_from_slice(data)
}

/// Relies on `BytesMut::split_to`: the buffer keeps bytes `[at, len)` and the
/// result holds `[0, at)`; it panics when `at > len`.
#[verifier::external_body]
pub(crate) fn buffer_split_to(b: &mut BytesMut, at: usize) -> (r: BytesMut)
    requires
        at <= buffered(*old(b)).len(),
    ensures
        buffered(r) == buffered(*old(b)).subrange(0, at as int),
        buffered(*final(b)) == buffered(*old(b)).subrange(at as int, buffered(*old(b)).len() as int),
{
    b.split_to(at)
}

} // verus!
