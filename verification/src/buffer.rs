//! The byte buffers of the `bytes` crate, as far as this crate uses them.

use vstd::prelude::*;
use bytes::BufMut;

verus! {

/// `bytes::Bytes`: an immutable run of bytes.
#[verifier::external_type_specification]
#[verifier::external_body]
pub struct ExBytes(bytes::Bytes);

/// `bytes::BytesMut`: a buffer that bytes are appended to.
#[verifier::external_type_specification]
#[verifier::external_body]
pub struct ExBytesMut(bytes::BytesMut);

/// The bytes that a `Bytes` holds.
pub uninterp spec fn bytes_contents(bytes: bytes::Bytes) -> Seq<u8>;

/// The bytes that have been appended to a `BytesMut`.
pub uninterp spec fn buffer_contents(buffer: bytes::BytesMut) -> Seq<u8>;

/// The number of bytes that a `BytesMut` was asked to make room for.
pub uninterp spec fn buffer_room(buffer: bytes::BytesMut) -> nat;

/// `Bytes::from::<Vec<u8>>`: the result holds the bytes of the vector, in order.
#[verifier::external_body]
pub(crate) fn bytes_from_vec(vec: Vec<u8>) -> (res: bytes::Bytes)
    ensures
        bytes_contents(res) == vec@,
{
    bytes::Bytes::from(vec)
}

/// `<Bytes as AsRef<[u8]>>::as_ref`: the slice is the bytes that the `Bytes` holds.
#[verifier::external_body]
pub(crate) fn bytes_as_slice(bytes: &bytes::Bytes) -> (res: &[u8])
    ensures
        res@ == bytes_contents(*bytes),
{
    bytes.as_ref()
}

/// `BytesMut::with_capacity`: the buffer is empty and has room for `capacity` bytes.
///
/// The call panics when the room would be larger than an allocation can be, so that is ruled out.
#[verifier::external_body]
pub(crate) fn buffer_with_capacity(capacity: usize) -> (res: bytes::BytesMut)
    requires
        capacity <= isize::MAX,
    ensures
        buffer_contents(res) == Seq::<u8>::empty(),
        buffer_room(res) == capacity,
{
    bytes::BytesMut::with_capacity(capacity)
}

/// `<BytesMut as BufMut>::put_u8`: appends one byte.
///
/// The claim is made for a byte that fits in the room the buffer was made with, where nothing has
/// to be allocated.
#[verifier::external_body]
pub(crate) fn buffer_put_u8(buffer: &mut bytes::BytesMut, byte: u8)
    requires
        buffer_contents(*old(buffer)).len() < buffer_room(*old(buffer)),
    ensures
        buffer_contents(*final(buffer)) == buffer_contents(*old(buffer)).push(byte),
        buffer_room(*final(buffer)) == buffer_room(*old(buffer)),
{
    buffer.put_u8(byte)
}

/// `<BytesMut as BufMut>::put` with a slice as the source: appends the bytes of the slice, in
/// order.
///
/// The claim is made for bytes that fit in the room the buffer was made with, where nothing has to
/// be allocated.
#[verifier::external_body]
pub(crate) fn buffer_put(buffer: &mut bytes::BytesMut, bytes: &[u8])
    requires
        buffer_contents(*old(buffer)).len() + bytes@.len() <= buffer_room(*old(buffer)),
    ensures
        buffer_contents(*final(buffer)) == buffer_contents(*old(buffer)) + bytes@,
        buffer_room(*final(buffer)) == buffer_room(*old(buffer)),
{
    buffer.put(bytes)
}

/// `to_vec` on what `BytesMut` dereferences to: a vector of the bytes appended so far, in order.
#[verifier::external_body]
pub(crate) fn buffer_to_vec(buffer: &bytes::BytesMut) -> (res: Vec<u8>)
    ensures
        res@ == buffer_contents(*buffer),
{
    buffer.to_vec()
}

} // verus!
