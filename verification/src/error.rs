//! Why writing or reading a request can fail.

use vstd::prelude::*;

verus! {

/// Why a value could not be written.
#[derive(Debug, Clone, Copy, PartialEq, Eq, Structural)]
pub enum EncodeError {
    /// A string is longer than its 16-bit length prefix can say, or a
    /// sequence or record payload is longer than its 32-bit prefix can say.
    LengthOverflow,
    /// The destination buffer cannot grow by as many bytes as must be written.
    NotEnoughCapacity,
}

/// Why wire bytes could not be read back.
#[derive(Debug, Clone, Copy, PartialEq, Eq, Structural)]
pub enum DecodeError {
    /// The protocol version is not one this request type is defined for.
    UnsupportedVersion,
    /// The bytes end before the value does.
    UnexpectedEof,
    /// The byte that says whether an optional value is present is neither 0
    /// nor 1.
    InvalidPresenceFlag,
    /// A length or count prefix is negative.
    NegativeLength,
    /// The bytes of a string are not well-formed UTF-8.
    InvalidUtf8,
}

} // verus!
