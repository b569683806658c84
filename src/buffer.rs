//! The growable byte buffer of the `bytes` crate that SETTINGS frames are written into.

use vstd::prelude::*;
use bytes::BytesMut;

verus! {

#[verifier::external_type_specification]
#[verifier::external_body]
pub struct ExBytesMut(bytes::BytesMut);

/// The bytes that a buffer holds, in order.
pub uninterp spec fn buffer_bytes(b: BytesMut) -> Seq<u8>;

/// Relies on `BytesMut::extend_from_slice`: appends the bytes of `src`, growing
/// the buffer first; it panics only when the new capacity overflows.
#[verifier::external_body]
pub(crate) fn put_slice(dst: &mut BytesMut, src: &[u8])
    requires
        buffer_bytes(*old(dst)).len() + src@.len() <= isize::MAX,
    ensures
        buffer_bytes(*final(dst)) == buffer_bytes(*old(dst)) + src@,
{
    dst.extend_from_slice(src)
}

} // verus!
