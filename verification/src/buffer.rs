//! The growable byte buffer that encoders write into, and the frozen byte
//! span that it can be turned into. Both come from the `bytes` crate; this
//! module states, without proof, what the few operations used here do.

use bytes::BufMut;
use bytes::Bytes;
use bytes::BytesMut;
use crate::wire::be_i16;
use crate::wire::be_i32;
use vstd::prelude::*;
use vstd::utf8::encode_utf8;
use vstd::utf8::valid_utf8;

verus! {

/// `bytes::BytesMut`, a growable buffer of bytes. Nothing is known of a
/// value but what the items below say.
#[verifier::external_type_specification]
#[verifier::external_body]
pub struct ExBytesMut(bytes::BytesMut);

/// `bytes::Bytes`, an immutable span of bytes. Nothing is known of a value
/// but what the items below say.
#[verifier::external_type_specification]
#[verifier::external_body]
pub struct ExBytes(bytes::Bytes);

/// The bytes that a `BytesMut` holds, first written first.
pub uninterp spec fn buffer_bytes(buf: BytesMut) -> Seq<u8>;

/// The bytes that a `Bytes` holds.
pub uninterp spec fn frozen_bytes(span: Bytes) -> Seq<u8>;

/// The most bytes a `BytesMut` can ever hold. `BufMut::remaining_mut` on a
/// `BytesMut` is `isize::MAX` less the bytes held, and the writers of
/// `BufMut` panic when asked for more than remains.
pub open spec fn max_buffer_len() -> int {
    isize::MAX as int
}

/// `BytesMut::len` returns the number of bytes held.
pub assume_specification[ BytesMut::len ](buf: &BytesMut) -> (n: usize)
    ensures
        n == buffer_bytes(*buf).len(),
;

/// `BufMut::put_u8` on a `BytesMut` appends the one byte, growing the buffer
/// as needed.
#[verifier::external_body]
pub(crate) fn put_u8(buf: &mut BytesMut, value: u8)
    requires
        buffer_bytes(*old(buf)).len() + 1 <= max_buffer_len(),
    ensures
        buffer_bytes(*final(buf)) == buffer_bytes(*old(buf)).push(value),
{
    buf.put_u8(value)
}

/// `BufMut::put_i16` on a `BytesMut` appends the two bytes of `value` in
/// big-endian order, growing the buffer as needed.
#[verifier::external_body]
pub(crate) fn put_i16(buf: &mut BytesMut, value: i16)
    requires
        buffer_bytes(*old(buf)).len() + 2 <= max_buffer_len(),
    ensures
        buffer_bytes(*final(buf)) == buffer_bytes(*old(buf)) + be_i16(value),
{
    buf.put_i16(value)
}

/// `BufMut::put_i32` on a `BytesMut` appends the four bytes of `value` in
/// big-endian order, growing the buffer as needed.
#[verifier::external_body]
pub(crate) fn put_i32(buf: &mut BytesMut, value: i32)
    requires
        buffer_bytes(*old(buf)).len() + 4 <= max_buffer_len(),
    ensures
        buffer_bytes(*final(buf)) == buffer_bytes(*old(buf)) + be_i32(value),
{
    buf.put_i32(value)
}

/// `BufMut::put_slice` on a `BytesMut` appends the whole slice, growing the
/// buffer as needed.
#[verifier::external_body]
pub(crate) fn put_slice(buf: &mut BytesMut, src: &[u8])
    requires
        buffer_bytes(*old(buf)).len() + src@.len() <= max_buffer_len(),
    ensures
        buffer_bytes(*final(buf)) == buffer_bytes(*old(buf)) + src@,
{
    buf.put_slice(src)
}

/// `BytesMut::split` hands out everything written so far as a buffer of its
/// own and leaves `buf` empty.
pub assume_specification[ BytesMut::split ](buf: &mut BytesMut) -> (head: BytesMut)
    ensures
        buffer_bytes(head) == buffer_bytes(*old(buf)),
        buffer_bytes(*final(buf)) == Seq::<u8>::empty(),
;

/// `BytesMut::freeze` turns the buffer into an immutable span of the same
/// bytes.
pub assume_specification[ BytesMut::freeze ](buf: BytesMut) -> (span: Bytes)
    ensures
        frozen_bytes(span) == buffer_bytes(buf),
;

/// `core::str::from_utf8` accepts exactly the well-formed UTF-8 byte strings,
/// and the text it returns is made of the very bytes it was given.
#[verifier::external_body]
pub(crate) fn str_from_utf8(bytes: &[u8]) -> (text: Option<&str>)
    ensures
        text is Some <==> valid_utf8(bytes@),
        text matches Some(t) ==> encode_utf8(t@) == bytes@,
{
    match core::str::from_utf8(bytes) {
        Ok(t) => Some(t),
        Err(_) => None,
    }
}

} // verus!
