//! The byte layout of the scalar fields: big-endian two's-complement
//! integers, strings behind a 16-bit byte count, and optional strings behind
//! a presence byte. Each layout comes as a spec function, a writer, a reader
//! and the proof that reading undoes writing.

use crate::buffer::buffer_bytes;
use crate::buffer::max_buffer_len;
use crate::buffer::put_i16;
use crate::buffer::put_slice;
use crate::buffer::put_u8;
use crate::buffer::str_from_utf8;
use crate::error::DecodeError;
use bytes::BytesMut;
use vstd::prelude::*;
use vstd::utf8::decode_utf8;
use vstd::utf8::encode_utf8;
use vstd::utf8::encode_utf8_decode_utf8;
use vstd::utf8::encode_utf8_valid_utf8;
use vstd::utf8::valid_utf8;

verus! {

/// The byte of `unsigned` that stands `place` bytes from its least
/// significant end.
#[verifier::opaque]
pub open spec fn byte_at(unsigned: int, place: nat) -> u8 {
    if place == 0 {
        (unsigned % 0x100) as u8
    } else if place == 1 {
        (unsigned / 0x100 % 0x100) as u8
    } else if place == 2 {
        (unsigned / 0x100 / 0x100 % 0x100) as u8
    } else {
        (unsigned / 0x100 / 0x100 / 0x100 % 0x100) as u8
    }
}

/// The two bytes of `value` in two's complement, most significant first.
pub open spec fn be_i16(value: i16) -> Seq<u8> {
    let unsigned: int = if value < 0 {
        value + 0x1_0000
    } else {
        value as int
    };
    seq![byte_at(unsigned, 1), byte_at(unsigned, 0)]
}

/// The four bytes of `value` in two's complement, most significant first.
pub open spec fn be_i32(value: i32) -> Seq<u8> {
    let unsigned: int = if value < 0 {
        value + 0x1_0000_0000
    } else {
        value as int
    };
    seq![byte_at(unsigned, 3), byte_at(unsigned, 2), byte_at(unsigned, 1), byte_at(unsigned, 0)]
}

/// The integer whose big-endian two's-complement bytes are `b0`, `b1`.
#[verifier::opaque]
pub open spec fn i16_of_be(b0: u8, b1: u8) -> i16 {
    let unsigned: int = b0 * 0x100 + b1;
    if unsigned >= 0x8000 {
        (unsigned - 0x1_0000) as i16
    } else {
        unsigned as i16
    }
}

/// The integer whose big-endian two's-complement bytes are `b0` to `b3`.
#[verifier::opaque]
pub open spec fn i32_of_be(b0: u8, b1: u8, b2: u8, b3: u8) -> i32 {
    let unsigned: int = b0 * 0x100_0000 + b1 * 0x1_0000 + b2 * 0x100 + b3;
    if unsigned >= 0x8000_0000 {
        (unsigned - 0x1_0000_0000) as i32
    } else {
        unsigned as i32
    }
}

/// Whether the UTF-8 form of `text` is short enough for a 16-bit prefix.
pub open spec fn string_fits(text: Seq<char>) -> bool {
    encode_utf8(text).len() <= i16::MAX
}

/// A string on the wire: its UTF-8 byte count, then the UTF-8 bytes.
pub open spec fn string_wire(text: Seq<char>) -> Seq<u8> {
    be_i16(encode_utf8(text).len() as i16) + encode_utf8(text)
}

/// Whether an optional string can be written.
pub open spec fn optional_string_fits(text: Option<Seq<char>>) -> bool {
    text matches Some(t) ==> string_fits(t)
}

/// An optional string on the wire: a presence byte, 0 for absent and 1 for
/// present, then the string if there is one. An empty string is present.
pub open spec fn optional_string_wire(text: Option<Seq<char>>) -> Seq<u8> {
    match text {
        None => seq![0u8],
        Some(t) => seq![1u8] + string_wire(t),
    }
}

/// What reading one byte at `pos` yields: the byte and the position after it.
pub open spec fn parse_u8(bytes: Seq<u8>, pos: int) -> Result<(u8, int), DecodeError> {
    if 0 <= pos && pos + 1 <= bytes.len() {
        Ok((bytes[pos], pos + 1))
    } else {
        Err(DecodeError::UnexpectedEof)
    }
}

/// What reading a 16-bit integer at `pos` yields.
pub open spec fn parse_i16(bytes: Seq<u8>, pos: int) -> Result<(i16, int), DecodeError> {
    if 0 <= pos && pos + 2 <= bytes.len() {
        Ok((i16_of_be(bytes[pos], bytes[pos + 1]), pos + 2))
    } else {
        Err(DecodeError::UnexpectedEof)
    }
}

/// What reading a 32-bit integer at `pos` yields.
pub open spec fn parse_i32(bytes: Seq<u8>, pos: int) -> Result<(i32, int), DecodeError> {
    if 0 <= pos && pos + 4 <= bytes.len() {
        Ok((i32_of_be(bytes[pos], bytes[pos + 1], bytes[pos + 2], bytes[pos + 3]), pos + 4))
    } else {
        Err(DecodeError::UnexpectedEof)
    }
}

/// What reading a length or count prefix at `pos` yields: a 32-bit integer
/// that must not be negative.
pub open spec fn parse_len(bytes: Seq<u8>, pos: int) -> Result<(int, int), DecodeError> {
    match parse_i32(bytes, pos) {
        Err(e) => Err(e),
        Ok((n, next)) => if n < 0 {
            Err(DecodeError::NegativeLength)
        } else {
            Ok((n as int, next))
        },
    }
}

/// What reading a string at `pos` yields.
pub open spec fn parse_string(bytes: Seq<u8>, pos: int) -> Result<(Seq<char>, int), DecodeError> {
    match parse_i16(bytes, pos) {
        Err(e) => Err(e),
        Ok((n, start)) => if n < 0 {
            Err(DecodeError::NegativeLength)
        } else if start + n > bytes.len() {
            Err(DecodeError::UnexpectedEof)
        } else if !valid_utf8(bytes.subrange(start, start + n)) {
            Err(DecodeError::InvalidUtf8)
        } else {
            Ok((decode_utf8(bytes.subrange(start, start + n)), start + n))
        },
    }
}

/// What reading an optional string at `pos` yields.
pub open spec fn parse_optional_string(bytes: Seq<u8>, pos: int) -> Result<
    (Option<Seq<char>>, int),
    DecodeError,
> {
    match parse_u8(bytes, pos) {
        Err(e) => Err(e),
        Ok((flag, next)) => if flag == 0 {
            Ok((None, next))
        } else if flag == 1 {
            match parse_string(bytes, next) {
                Err(e) => Err(e),
                Ok((text, end)) => Ok((Some(text), end)),
            }
        } else {
            Err(DecodeError::InvalidPresenceFlag)
        },
    }
}

/// The model of an optional string.
pub open spec fn optional_text(text: Option<String>) -> Option<Seq<char>> {
    match text {
        None => None,
        Some(t) => Some(t@),
    }
}

/// Whether a reader's result is what the layout says reading yields.
pub open spec fn read_matches<T>(
    got: Result<(T, usize), DecodeError>,
    expected: Result<(T, int), DecodeError>,
) -> bool {
    match got {
        Ok((value, next)) => expected == Ok::<(T, int), DecodeError>((value, next as int)),
        Err(e) => expected == Err::<(T, int), DecodeError>(e),
    }
}

/// The number of bytes `text` takes on the wire, or `None` if it is too long
/// to be written.
pub(crate) fn string_size(text: &str) -> (size: Option<usize>)
    ensures
        string_fits(text@) ==> size == Some(string_wire(text@).len() as usize),
        !string_fits(text@) ==> size is None,
{
    let len: usize = text.as_bytes().len();
    if len <= 0x7fff {
        Some(len + 2)
    } else {
        None
    }
}

/// The number of bytes an optional string takes on the wire, or `None` if it
/// is too long to be written.
pub(crate) fn optional_string_size(text: &Option<String>) -> (size: Option<usize>)
    ensures
        optional_string_fits(optional_text(*text)) ==> size == Some(
            optional_string_wire(optional_text(*text)).len() as usize,
        ),
        !optional_string_fits(optional_text(*text)) ==> size is None,
{
    match text {
        None => Some(1),
        Some(t) => match string_size(t.as_str()) {
            Some(n) => Some(n + 1),
            None => None,
        },
    }
}

/// Appends a string in its wire form.
pub(crate) fn write_string(dest: &mut BytesMut, text: &str)
    requires
        string_fits(text@),
        buffer_bytes(*old(dest)).len() + string_wire(text@).len() <= max_buffer_len(),
    ensures
        buffer_bytes(*final(dest)) == buffer_bytes(*old(dest)) + string_wire(text@),
{
    let bytes = text.as_bytes();
    put_i16(dest, bytes.len() as i16);
    put_slice(dest, bytes);
}

/// Appends an optional string in its wire form.
pub(crate) fn write_optional_string(dest: &mut BytesMut, text: &Option<String>)
    requires
        optional_string_fits(optional_text(*text)),
        buffer_bytes(*old(dest)).len() + optional_string_wire(optional_text(*text)).len()
            <= max_buffer_len(),
    ensures
        buffer_bytes(*final(dest)) == buffer_bytes(*old(dest)) + optional_string_wire(
            optional_text(*text),
        ),
{
    match text {
        None => {
            put_u8(dest, 0);
        },
        Some(t) => {
            put_u8(dest, 1);
            write_string(dest, t.as_str());
        },
    }
}

/// Reads one byte at `pos`.
pub(crate) fn read_u8(src: &[u8], pos: usize) -> (got: Result<(u8, usize), DecodeError>)
    ensures
        read_matches(got, parse_u8(src@, pos as int)),
{
    if pos < src.len() {
        Ok((src[pos], pos + 1))
    } else {
        Err(DecodeError::UnexpectedEof)
    }
}

/// Reads a big-endian 16-bit integer at `pos`.
pub(crate) fn read_i16(src: &[u8], pos: usize) -> (got: Result<(i16, usize), DecodeError>)
    ensures
        read_matches(got, parse_i16(src@, pos as int)),
{
    if pos <= src.len() && src.len() - pos >= 2 {
        proof {
            reveal(i16_of_be);
        }
        let unsigned: u16 = (src[pos] as u16) * 0x100 + (src[pos + 1] as u16);
        let value: i16 = if unsigned >= 0x8000 {
            (unsigned as i32 - 0x1_0000) as i16
        } else {
            unsigned as i16
        };
        Ok((value, pos + 2))
    } else {
        Err(DecodeError::UnexpectedEof)
    }
}

/// Reads a big-endian 32-bit integer at `pos`.
pub(crate) fn read_i32(src: &[u8], pos: usize) -> (got: Result<(i32, usize), DecodeError>)
    ensures
        read_matches(got, parse_i32(src@, pos as int)),
{
    if pos <= src.len() && src.len() - pos >= 4 {
        proof {
            reveal(i32_of_be);
        }
        let unsigned: u32 = (src[pos] as u32) * 0x100_0000 + (src[pos + 1] as u32) * 0x1_0000 + (
        src[pos + 2] as u32) * 0x100 + (src[pos + 3] as u32);
        let value: i32 = if unsigned >= 0x8000_0000 {
            (unsigned as i64 - 0x1_0000_0000) as i32
        } else {
            unsigned as i32
        };
        Ok((value, pos + 4))
    } else {
        Err(DecodeError::UnexpectedEof)
    }
}

/// Reads a length or count prefix at `pos`.
pub(crate) fn read_len(src: &[u8], pos: usize) -> (got: Result<(i32, usize), DecodeError>)
    ensures
        match got {
            Ok((n, next)) => parse_len(src@, pos as int) == Ok::<(int, int), DecodeError>(
                (n as int, next as int),
            ),
            Err(e) => parse_len(src@, pos as int) == Err::<(int, int), DecodeError>(e),
        },
{
    match read_i32(src, pos) {
        Err(e) => Err(e),
        Ok((n, next)) => if n < 0 {
            Err(DecodeError::NegativeLength)
        } else {
            Ok((n, next))
        },
    }
}

/// Reads a string at `pos`.
pub(crate) fn read_string(src: &[u8], pos: usize) -> (got: Result<(String, usize), DecodeError>)
    ensures
        match got {
            Ok((text, next)) => parse_string(src@, pos as int) == Ok::<
                (Seq<char>, int),
                DecodeError,
            >((text@, next as int)),
            Err(e) => parse_string(src@, pos as int) == Err::<(Seq<char>, int), DecodeError>(e),
        },
{
    match read_i16(src, pos) {
        Err(e) => Err(e),
        Ok((n, start)) => {
            if n < 0 {
                return Err(DecodeError::NegativeLength);
            }
            let len: usize = n as usize;
            if src.len() - start < len {
                return Err(DecodeError::UnexpectedEof);
            }
            let body = vstd::slice::slice_subrange(src, start, start + len);
            match str_from_utf8(body) {
                None => Err(DecodeError::InvalidUtf8),
                Some(text) => {
                    proof {
                        encode_utf8_decode_utf8(text@);
                    }
                    Ok((text.to_owned(), start + len))
                },
            }
        },
    }
}

/// Reads an optional string at `pos`.
pub(crate) fn read_optional_string(src: &[u8], pos: usize) -> (got: Result<
    (Option<String>, usize),
    DecodeError,
>)
    ensures
        match got {
            Ok((text, next)) => parse_optional_string(src@, pos as int) == Ok::<
                (Option<Seq<char>>, int),
                DecodeError,
            >((optional_text(text), next as int)),
            Err(e) => parse_optional_string(src@, pos as int) == Err::<
                (Option<Seq<char>>, int),
                DecodeError,
            >(e),
        },
{
    match read_u8(src, pos) {
        Err(e) => Err(e),
        Ok((flag, next)) => {
            if flag == 0 {
                Ok((None, next))
            } else if flag == 1 {
                match read_string(src, next) {
                    Err(e) => Err(e),
                    Ok((text, end)) => Ok((Some(text), end)),
                }
            } else {
                Err(DecodeError::InvalidPresenceFlag)
            }
        },
    }
}

/// The big-endian bytes of a 16-bit integer determine it.
pub proof fn lemma_i16_of_be_i16(value: i16)
    ensures
        be_i16(value).len() == 2,
        i16_of_be(be_i16(value)[0], be_i16(value)[1]) == value,
{
    reveal(byte_at);
    reveal(i16_of_be);
}

/// The big-endian bytes of a 32-bit integer determine it.
pub proof fn lemma_i32_of_be_i32(value: i32)
    ensures
        be_i32(value).len() == 4,
        i32_of_be(be_i32(value)[0], be_i32(value)[1], be_i32(value)[2], be_i32(value)[3])
            == value,
{
    let unsigned: int = if value < 0 {
        value + 0x1_0000_0000
    } else {
        value as int
    };
    reveal(byte_at);
    reveal(i32_of_be);
    let q1: int = unsigned / 0x100;
    let q2: int = q1 / 0x100;
    let q3: int = q2 / 0x100;
    assert(unsigned == q1 * 0x100 + unsigned % 0x100);
    assert(q1 == q2 * 0x100 + q1 % 0x100);
    assert(q2 == q3 * 0x100 + q2 % 0x100);
    assert(0 <= q3 < 0x100);
}

/// Whether `wire` stands in `bytes` from position `pos` on.
pub open spec fn stands_at(bytes: Seq<u8>, pos: int, wire: Seq<u8>) -> bool {
    &&& 0 <= pos
    &&& pos + wire.len() <= bytes.len()
    &&& bytes.subrange(pos, pos + wire.len()) == wire
}

/// Where two byte strings stand one after the other, each stands.
pub proof fn lemma_stands_at_split(bytes: Seq<u8>, pos: int, first: Seq<u8>, second: Seq<u8>)
    requires
        stands_at(bytes, pos, first + second),
    ensures
        stands_at(bytes, pos, first),
        stands_at(bytes, pos + first.len(), second),
{
    let both = bytes.subrange(pos, pos + (first + second).len());
    assert(bytes.subrange(pos, pos + first.len()) =~= both.subrange(0, first.len() as int));
    assert((first + second).subrange(0, first.len() as int) =~= first);
    assert(bytes.subrange(pos + first.len(), pos + first.len() + second.len()) =~= both.subrange(
        first.len() as int,
        (first.len() + second.len()) as int,
    ));
    assert((first + second).subrange(first.len() as int, (first.len() + second.len()) as int)
        =~= second);
}

/// A byte string stands at the start of itself.
pub proof fn lemma_stands_at_start(wire: Seq<u8>)
    ensures
        stands_at(wire, 0, wire),
{
    assert(wire.subrange(0, wire.len() as int) =~= wire);
}

/// Reading one byte where it stands gives it back.
pub proof fn lemma_parse_u8_at(bytes: Seq<u8>, pos: int, value: u8)
    requires
        stands_at(bytes, pos, seq![value]),
    ensures
        parse_u8(bytes, pos) == Ok::<(u8, int), DecodeError>((value, pos + 1)),
{
    assert(bytes[pos] == bytes.subrange(pos, pos + 1)[0]);
}

/// Reading a 16-bit integer where its bytes stand gives it back.
pub proof fn lemma_parse_i16_at(bytes: Seq<u8>, pos: int, value: i16)
    requires
        stands_at(bytes, pos, be_i16(value)),
    ensures
        parse_i16(bytes, pos) == Ok::<(i16, int), DecodeError>((value, pos + 2)),
{
    lemma_i16_of_be_i16(value);
    let own = bytes.subrange(pos, pos + 2);
    assert(bytes[pos] == own[0]);
    assert(bytes[pos + 1] == own[1]);
}

/// Reading a 32-bit integer where its bytes stand gives it back.
pub proof fn lemma_parse_i32_at(bytes: Seq<u8>, pos: int, value: i32)
    requires
        stands_at(bytes, pos, be_i32(value)),
    ensures
        parse_i32(bytes, pos) == Ok::<(i32, int), DecodeError>((value, pos + 4)),
{
    lemma_i32_of_be_i32(value);
    let own = bytes.subrange(pos, pos + 4);
    assert(bytes[pos] == own[0]);
    assert(bytes[pos + 1] == own[1]);
    assert(bytes[pos + 2] == own[2]);
    assert(bytes[pos + 3] == own[3]);
}

/// Reading a length or count where its bytes stand gives it back.
pub proof fn lemma_parse_len_at(bytes: Seq<u8>, pos: int, len: nat)
    requires
        len <= i32::MAX,
        stands_at(bytes, pos, be_i32(len as i32)),
    ensures
        parse_len(bytes, pos) == Ok::<(int, int), DecodeError>((len as int, pos + 4)),
{
    lemma_parse_i32_at(bytes, pos, len as i32);
}

/// Reading a string where its wire form stands gives it back.
pub proof fn lemma_parse_string_at(bytes: Seq<u8>, pos: int, text: Seq<char>)
    requires
        string_fits(text),
        stands_at(bytes, pos, string_wire(text)),
    ensures
        parse_string(bytes, pos) == Ok::<(Seq<char>, int), DecodeError>(
            (text, pos + string_wire(text).len()),
        ),
{
    let body = encode_utf8(text);
    lemma_stands_at_split(bytes, pos, be_i16(body.len() as i16), body);
    lemma_parse_i16_at(bytes, pos, body.len() as i16);
    encode_utf8_valid_utf8(text);
    encode_utf8_decode_utf8(text);
}

/// Reading an optional string where its wire form stands gives it back: an
/// absent one stays absent and an empty one stays present.
pub proof fn lemma_parse_optional_string_at(bytes: Seq<u8>, pos: int, text: Option<Seq<char>>)
    requires
        optional_string_fits(text),
        stands_at(bytes, pos, optional_string_wire(text)),
    ensures
        parse_optional_string(bytes, pos) == Ok::<(Option<Seq<char>>, int), DecodeError>(
            (text, pos + optional_string_wire(text).len()),
        ),
{
    match text {
        None => {
            lemma_parse_u8_at(bytes, pos, 0u8);
        },
        Some(t) => {
            lemma_stands_at_split(bytes, pos, seq![1u8], string_wire(t));
            lemma_parse_u8_at(bytes, pos, 1u8);
            lemma_parse_string_at(bytes, pos + 1, t);
        },
    }
}

} // verus!
