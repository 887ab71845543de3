//! The growable byte buffer of the `bytes` crate, as the frame codec reads and fills it.
use vstd::prelude::*;

verus! {

/// `bytes::BytesMut`, the buffer that frames are read from and written to.
#[verifier::external_type_specification]
#[verifier::external_body]
pub struct ExBytesMut(bytes::BytesMut);

/// The bytes that a `BytesMut` holds, from its read position to its end.
pub uninterp spec fn bytes_mut_contents(b: bytes::BytesMut) -> Seq<u8>;

/// `BytesMut::len`: the number of bytes the buffer holds.
#[verifier::external_body]
pub(crate) fn buffer_len(b: &bytes::BytesMut) -> (n: usize)
    ensures
        n == bytes_mut_contents(*b).len(),
{
    b.len()
}

/// `<BytesMut as Deref>::deref`: the held bytes as a slice.
#[verifier::external_body]
pub(crate) fn buffer_as_slice(b: &bytes::BytesMut) -> (s: &[u8])
    ensures
        s@ == bytes_mut_contents(*b),
{
    &**b
}

/// `BytesMut::reserve`: makes room for `additional` more bytes; the contents stay as they are.
/// The source panics when the new capacity overflows (a `Vec` holds at most `isize::MAX`
/// bytes), which `requires` leaves out; a failed allocation, and the room that an earlier
/// `advance` left before the read position, are not stated.
#[verifier::external_body]
pub(crate) fn buffer_reserve(b: &mut bytes::BytesMut, additional: usize)
    requires
        bytes_mut_contents(*old(b)).len() + additional <= isize::MAX,
    ensures
        bytes_mut_contents(*final(b)) == bytes_mut_contents(*old(b)),
{
    b.reserve(additional)
}

/// `<BytesMut as BufMut>::put_slice`: appends the bytes of `src`.
/// It reserves room first, with the same limit as `buffer_reserve`.
#[verifier::external_body]
pub(crate) fn buffer_put_slice(b: &mut bytes::BytesMut, src: &[u8])
    requires
        bytes_mut_contents(*old(b)).len() + src@.len() <= isize::MAX,
    ensures
        bytes_mut_contents(*final(b)) == bytes_mut_contents(*old(b)) + src@,
{
    bytes::BufMut::put_slice(b, src)
}

/// `<BytesMut as Buf>::advance`: drops the first `cnt` bytes. The source asserts
/// `cnt <= len`.
#[verifier::external_body]
pub(crate) fn buffer_advance(b: &mut bytes::BytesMut, cnt: usize)
    requires
        cnt <= bytes_mut_contents(*old(b)).len(),
    ensures
        bytes_mut_contents(*final(b)) == bytes_mut_contents(*old(b)).skip(cnt as int),
{
    bytes::Buf::advance(b, cnt)
}

} // verus!
