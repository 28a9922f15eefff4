//! Byte buffers of the `bytes` crate, as the decoder and the payload paths use them.
use vstd::prelude::*;

verus! {

#[verifier::external_type_specification]
#[verifier::external_body]
pub struct ExBytesMut(bytes::BytesMut);

#[verifier::external_type_specification]
#[verifier::external_body]
pub struct ExBytes(bytes::Bytes);

/// The bytes held by a growable buffer, front first.
pub uninterp spec fn bytes_mut_contents(b: bytes::BytesMut) -> Seq<u8>;

/// The bytes held by a frozen buffer, front first.
pub uninterp spec fn bytes_contents(b: bytes::Bytes) -> Seq<u8>;

/// Relies on `BytesMut::new`: a new buffer holds no bytes.
#[verifier::external_body]
pub(crate) fn buf_new() -> (r: bytes::BytesMut)
    ensures
        bytes_mut_contents(r) == Seq::<u8>::empty(),
{
    bytes::BytesMut::new()
}

/// Relies on `BytesMut::len`: the number of bytes held.
#[verifier::external_body]
pub(crate) fn buf_len(b: &bytes::BytesMut) -> (r: usize)
    ensures
        r == bytes_mut_contents(*b).len(),
{
    b.len()
}

/// Relies on indexing through `BytesMut`'s `Deref` to `[u8]`: the byte at position `i`.
#[verifier::external_body]
pub(crate) fn buf_at(b: &bytes::BytesMut, i: usize) -> (r: u8)
    requires
        i < bytes_mut_contents(*b).len(),
    ensures
        r == bytes_mut_contents(*b)[i as int],
{
    b[i]
}

/// Relies on `BytesMut::extend_from_slice`: the bytes of `data` are appended at the back.
#[verifier::external_body]
pub(crate) fn buf_extend(b: &mut bytes::BytesMut, data: &bytes::Bytes)
    ensures
        bytes_mut_contents(*final(b)) == bytes_mut_contents(*old(b)) + bytes_contents(*data),
{
    b.extend_from_slice(data)
}

/// Relies on `Buf::advance` for `BytesMut`: the first `n` bytes are dropped (it panics past the end).
#[verifier::external_body]
pub(crate) fn buf_advance(b: &mut bytes::BytesMut, n: usize)
    requires
        n <= bytes_mut_contents(*old(b)).len(),
    ensures
        bytes_mut_contents(*final(b)) == bytes_mut_contents(*old(b)).skip(n as int),
{
    bytes::Buf::advance(b, n)
}

/// Relies on `BytesMut::split_to` and `BytesMut::freeze`: the first `n` bytes move out, the rest stay
/// (`split_to` panics past the end).
#[verifier::external_body]
pub(crate) fn buf_split_front(b: &mut bytes::BytesMut, n: usize) -> (r: bytes::Bytes)
    requires
        n <= bytes_mut_contents(*old(b)).len(),
    ensures
        bytes_contents(r) == bytes_mut_contents(*old(b)).take(n as int),
        bytes_mut_contents(*final(b)) == bytes_mut_contents(*old(b)).skip(n as int),
{
    b.split_to(n).freeze()
}

/// Relies on `Bytes::len`: the number of bytes held.
#[verifier::external_body]
pub(crate) fn bytes_len(b: &bytes::Bytes) -> (r: usize)
    ensures
        r == bytes_contents(*b).len(),
{
    b.len()
}

} // verus!
