//! The reusable output buffer of a connection, `bytes::BytesMut`, as seen by
//! the verified code: an opaque value whose contents are a byte sequence.

use vstd::prelude::*;

verus! {

#[verifier::external_type_specification]
#[verifier::external_body]
pub struct ExBytesMut(bytes::BytesMut);

/// The bytes that a buffer currently holds.
pub uninterp spec fn buf_bytes(b: bytes::BytesMut) -> Seq<u8>;

/// Relies on `BytesMut::new`: a new buffer holds no bytes.
pub assume_specification[ bytes::BytesMut::new ]() -> (r: bytes::BytesMut)
    ensures
        buf_bytes(r) == Seq::<u8>::empty(),
;

/// Relies on `BytesMut::len`: the number of bytes held.
pub assume_specification[ bytes::BytesMut::len ](b: &bytes::BytesMut) -> (r: usize)
    ensures
        r == buf_bytes(*b).len(),
;

/// Relies on `BytesMut::extend_from_slice`: the bytes are appended at the end.
/// It panics when the new length overflows or cannot be allocated, so the
/// result must stay within `isize::MAX` bytes.
pub assume_specification[ bytes::BytesMut::extend_from_slice ](
    b: &mut bytes::BytesMut,
    extend: &[u8],
)
    requires
        buf_bytes(*old(b)).len() + extend@.len() <= isize::MAX,
    ensures
        buf_bytes(*final(b)) == buf_bytes(*old(b)) + extend@,
;

/// Relies on `<BytesMut as AsRef<[u8]>>::as_ref`: a view of the bytes held.
#[verifier::external_body]
pub(crate) fn buf_as_slice(b: &bytes::BytesMut) -> (r: &[u8])
    ensures
        r@ == buf_bytes(*b),
{
    b.as_ref()
}

} // verus!
