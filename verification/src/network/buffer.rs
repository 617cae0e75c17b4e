//! The shared byte buffers of the `bytes` crate, as far as the framing code
//! touches them.
use bytes::{Bytes, BytesMut};
use vstd::prelude::*;

verus! {

#[verifier::external_type_specification]
#[verifier::external_body]
pub struct ExBytes(Bytes);

#[verifier::external_type_specification]
#[verifier::external_body]
pub struct ExBytesMut(BytesMut);

/// The bytes that an immutable buffer holds, first to last.
pub uninterp spec fn bytes_seq(b: Bytes) -> Seq<u8>;

/// The bytes that a growable buffer holds, first to last.
pub uninterp spec fn bytes_mut_seq(b: BytesMut) -> Seq<u8>;

/// `Bytes::clone`: a second handle on the same bytes.
pub assume_specification[ <Bytes as Clone>::clone ](b: &Bytes) -> (out: Bytes)
    ensures
        bytes_seq(out) == bytes_seq(*b),
;

/// `Bytes::as_ref`: the buffer's contents as a slice, unchanged and in order.
#[verifier::external_body]
pub(crate) fn bytes_as_slice(b: &Bytes) -> (s: &[u8])
    ensures
        s@ == bytes_seq(*b),
{
    b.as_ref()
}

/// `Bytes::from(Vec<u8>)`: a buffer that takes over the vector's bytes.
#[verifier::external_body]
pub(crate) fn bytes_from_vec(v: Vec<u8>) -> (b: Bytes)
    ensures
        bytes_seq(b) == v@,
{
    Bytes::from(v)
}

/// `Bytes::slice`: a buffer over the bytes from `start` up to `end`. The
/// outside method panics when the range is reversed or runs past the end,
/// which the precondition rules out.
#[verifier::external_body]
pub(crate) fn bytes_slice(b: &Bytes, start: usize, end: usize) -> (out: Bytes)
    requires
        start <= end <= bytes_seq(*b).len(),
    ensures
        bytes_seq(out) == bytes_seq(*b).subrange(start as int, end as int),
{
    b.slice(start..end)
}

/// `BytesMut::with_capacity`: an empty growable buffer. The capacity is a
/// hint and is not part of what the buffer holds.
#[verifier::external_body]
pub(crate) fn bytes_mut_with_capacity(capacity: usize) -> (b: BytesMut)
    ensures
        bytes_mut_seq(b) == Seq::<u8>::empty(),
{
    BytesMut::with_capacity(capacity)
}

/// `BytesMut::extend_from_slice`: appends the slice to the buffer, growing
/// it as needed.
#[verifier::external_body]
pub(crate) fn bytes_mut_extend(b: &mut BytesMut, extra: &[u8])
    ensures
        bytes_mut_seq(*final(b)) == bytes_mut_seq(*old(b)) + extra@,
{
    b.extend_from_slice(extra)
}

} // verus!
