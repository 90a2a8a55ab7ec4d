//! The serialization framework: typed read and write capabilities for the
//! protocol's primitive and composite wire types, the shared error taxonomy,
//! and the connection state machine's state type.
//!
//! All multi-byte integers are big-endian.  Strings carry a VarInt byte
//! length prefix and must be valid UTF-8 of at most `MAX_STRING_LENGTH`
//! bytes.  A `PrefixedArray` carries a VarInt element count followed by the
//! elements in order.

use vstd::prelude::*;
use vstd::slice::{slice_subrange, slice_to_vec};
use vstd::utf8::{decode_utf8, valid_utf8};

use crate::varint::{
    is_varint_boundary, read_varint, varint_encoding, varint_has_boundary, varint_i32, varint_len,
    write_varint, VarInt, VarIntError,
};

verus! {

/// Represents the current state of the protocol for a connection.
///
/// States are scoped: the same packet id means different things in different
/// states.  Transitions form a directed graph (see `can_transition`), driven
/// only by protocol logic, never by the transport layer.
#[derive(Debug, Copy, Clone, Eq, Hash, PartialEq, Structural)]
pub enum ProtocolState {
    Handshake,
    Status,
    Login,
    Configuration,
    Play,
}

/// The legal transitions of the protocol flow: a handshake branches to
/// status or login by the client's intent, login acknowledgement enters
/// configuration, and finishing configuration enters play.
pub open spec fn can_transition(from: ProtocolState, to: ProtocolState) -> bool {
    ||| (from == ProtocolState::Handshake && (to == ProtocolState::Status || to
        == ProtocolState::Login))
    ||| (from == ProtocolState::Login && to == ProtocolState::Configuration)
    ||| (from == ProtocolState::Configuration && to == ProtocolState::Play)
}

/// Maximum byte length of a string on the wire.
pub const MAX_STRING_LENGTH: u32 = 32767;

/// Errors that can occur while reading from a protocol buffer.
#[derive(Debug, Clone, Copy, PartialEq, Eq, Structural)]
pub enum ReadError {
    /// Something went wrong while reading a `VarInt`.
    VarIntError(VarIntError),
    /// The received buffer isn't enough for reading the whole value.
    Incomplete,
    /// There were too many bytes for this type to be read.
    TooManyBytes,
    /// The provided buffer is malformed for this type.
    MalformedBuffer,
    /// The raw bytes of a string are not valid UTF-8.
    InvalidString,
    /// An enumeration's discriminant is not one this protocol knows.
    UnknownVariant(i32),
}

/// Errors that can occur while writing a value to a buffer.
#[derive(Debug, Clone, Copy, PartialEq, Eq, Structural)]
pub enum WriteError {
    /// Something went wrong while writing a `VarInt`.
    VarIntError(VarIntError),
    /// A value exceeds its encoding's capacity (a string or sequence longer
    /// than the wire format can carry).
    TooLong,
}

/// An error that means "not enough bytes yet": never fatal, the caller
/// retries once more bytes arrive (in either its bare or its VarInt-nested
/// form).
pub open spec fn is_incomplete_error(e: ReadError) -> bool {
    e == ReadError::Incomplete || e == ReadError::VarIntError(VarIntError::Incomplete)
}

/// A type that can be decoded from the front of a byte buffer.
///
/// `decodable` says when a complete, well-formed value sits at the front of
/// the buffer, `decoded_len` how many bytes it occupies, `decodes_to` which
/// value it is, and `decode_incomplete` whether a failure to decode is mere
/// incompleteness (more bytes could fix it) rather than a structural
/// violation.
pub trait Readable: Sized {
    /// A complete, well-formed value sits at the front of `buf`.
    spec fn decodable(buf: Seq<u8>) -> bool;

    /// The number of bytes the value at the front of `buf` occupies.
    spec fn decoded_len(buf: Seq<u8>) -> int;

    /// `v` is the value decoded from the front of `buf`.
    spec fn decodes_to(buf: Seq<u8>, v: &Self) -> bool;

    /// A value fails to decode from the front of `buf` only for want of
    /// more bytes (meaningful when `!decodable(buf)`).
    spec fn decode_incomplete(buf: Seq<u8>) -> bool;

    /// Reads a value from the front of the buffer, returning it with the
    /// number of bytes consumed.  A failed read reports incompleteness, and
    /// never anything else, exactly when `decode_incomplete` says the
    /// failure is incompleteness.
    fn read(buffer: &[u8]) -> (r: Result<(Self, usize), ReadError>)
        ensures
            r is Ok <==> Self::decodable(buffer@),
            r matches Ok(p) ==> Self::decodes_to(buffer@, &p.0) && p.1 as int == Self::decoded_len(
                buffer@,
            ) && p.1 <= buffer@.len(),
            r matches Err(e) ==> (is_incomplete_error(e) <==> Self::decode_incomplete(buffer@)),
    ;
}

/// A type that can be encoded to bytes as the protocol specifies.
pub trait Writeable {
    /// The exact bytes this value puts on the wire.
    spec fn encoding(&self) -> Seq<u8>;

    /// Whether the value fits its encoding's capacity.
    spec fn encodable(&self) -> bool;

    /// Writes this value, failing exactly when it exceeds the encoding's
    /// capacity.
    fn write(&self) -> (r: Result<Vec<u8>, WriteError>)
        ensures
            r matches Ok(b) ==> self.encodable() && b@ == self.encoding(),
            r is Err ==> !self.encodable(),
    ;
}

// ---------------------------------------------------------------------------
// Big-endian byte layouts.
// ---------------------------------------------------------------------------

/// The two big-endian bytes of a `u16`.
pub open spec fn u16_be_bytes(x: u16) -> Seq<u8> {
    seq![(x >> 8) as u8, x as u8]
}

/// The `u16` spelled by two big-endian bytes.
pub open spec fn u16_from_be(b0: u8, b1: u8) -> u16 {
    ((b0 as u16) << 8) | (b1 as u16)
}

/// The eight big-endian bytes of a `u64`.
pub open spec fn u64_be_bytes(x: u64) -> Seq<u8> {
    seq![
        (x >> 56) as u8,
        (x >> 48) as u8,
        (x >> 40) as u8,
        (x >> 32) as u8,
        (x >> 24) as u8,
        (x >> 16) as u8,
        (x >> 8) as u8,
        x as u8,
    ]
}

/// The `u64` spelled by eight big-endian bytes.
pub open spec fn u64_from_be(s: Seq<u8>) -> u64 {
    ((s[0] as u64) << 56) | ((s[1] as u64) << 48) | ((s[2] as u64) << 40) | ((s[3] as u64) << 32)
        | ((s[4] as u64) << 24) | ((s[5] as u64) << 16) | ((s[6] as u64) << 8) | (s[7] as u64)
}

/// The sixteen big-endian bytes of a `u128` (the wire form of a UUID).
pub open spec fn u128_be_bytes(x: u128) -> Seq<u8> {
    seq![
        (x >> 120) as u8,
        (x >> 112) as u8,
        (x >> 104) as u8,
        (x >> 96) as u8,
        (x >> 88) as u8,
        (x >> 80) as u8,
        (x >> 72) as u8,
        (x >> 64) as u8,
        (x >> 56) as u8,
        (x >> 48) as u8,
        (x >> 40) as u8,
        (x >> 32) as u8,
        (x >> 24) as u8,
        (x >> 16) as u8,
        (x >> 8) as u8,
        x as u8,
    ]
}

/// The `u128` spelled by sixteen big-endian bytes.
pub open spec fn u128_from_be(s: Seq<u8>) -> u128 {
    ((s[0] as u128) << 120) | ((s[1] as u128) << 112) | ((s[2] as u128) << 104) | ((
    s[3] as u128) << 96) | ((s[4] as u128) << 88) | ((s[5] as u128) << 80) | ((s[6] as u128) << 72)
        | ((s[7] as u128) << 64) | ((s[8] as u128) << 56) | ((s[9] as u128) << 48) | ((
    s[10] as u128) << 40) | ((s[11] as u128) << 32) | ((s[12] as u128) << 24) | ((s[13] as u128)
        << 16) | ((s[14] as u128) << 8) | (s[15] as u128)
}

// ---------------------------------------------------------------------------
// Strings.
// ---------------------------------------------------------------------------

/// Relies on str::from_utf8 (with str::to_owned): it succeeds exactly on
/// valid UTF-8 input, and the returned string spells those bytes.
#[verifier::external_body]
pub fn bytes_to_string(b: &[u8]) -> (r: Option<String>)
    ensures
        r is Some <==> valid_utf8(b@),
        r matches Some(s) ==> s@ == decode_utf8(b@),
{
    match core::str::from_utf8(b) {
        Ok(s) => Some(s.to_owned()),
        Err(_) => None,
    }
}

/// The byte-length prefix of the string at the front of `buf` is complete
/// and in range, all its payload bytes are present, and they are valid
/// UTF-8.
pub open spec fn string_decodable(buf: Seq<u8>) -> bool {
    &&& varint_has_boundary(buf)
    &&& 0 <= varint_i32(buf) <= MAX_STRING_LENGTH
    &&& varint_len(buf) + varint_i32(buf) <= buf.len()
    &&& valid_utf8(string_payload(buf))
}

/// The UTF-8 payload bytes of the string at the front of `buf`.
pub open spec fn string_payload(buf: Seq<u8>) -> Seq<u8> {
    buf.subrange(varint_len(buf), varint_len(buf) + varint_i32(buf))
}

/// The total wire length of the string at the front of `buf`.
pub open spec fn string_decoded_len(buf: Seq<u8>) -> int {
    varint_len(buf) + varint_i32(buf)
}

/// A string fails to decode for want of bytes: its length prefix is cut
/// short, or the prefix is complete and in range but payload bytes are
/// missing.
pub open spec fn string_decode_incomplete(buf: Seq<u8>) -> bool {
    ||| (!varint_has_boundary(buf) && buf.len() < 5)
    ||| (varint_has_boundary(buf) && 0 <= varint_i32(buf) <= MAX_STRING_LENGTH && varint_len(buf)
        + varint_i32(buf) > buf.len())
}

/// Reads a length-prefixed UTF-8 string.  Each error comes exactly when its
/// clause says: a broken length prefix, a negative length, a length above
/// the maximum, missing payload bytes, or payload that is not UTF-8.
pub fn read_string(buffer: &[u8]) -> (r: Result<(String, usize), ReadError>)
    ensures
        r is Ok <==> string_decodable(buffer@),
        r matches Ok(p) ==> p.0@ == decode_utf8(string_payload(buffer@)) && p.1 as int
            == string_decoded_len(buffer@) && p.1 <= buffer@.len(),
        match r {
            Ok(_) => true,
            Err(ReadError::VarIntError(e)) => !varint_has_boundary(buffer@) && (e
                == VarIntError::Incomplete ==> buffer@.len() < 5) && (e
                == VarIntError::TooManyBytes ==> buffer@.len() >= 5),
            Err(ReadError::MalformedBuffer) => varint_has_boundary(buffer@) && varint_i32(buffer@)
                < 0,
            Err(ReadError::TooManyBytes) => varint_has_boundary(buffer@) && varint_i32(buffer@)
                > MAX_STRING_LENGTH,
            Err(ReadError::Incomplete) => varint_has_boundary(buffer@) && 0 <= varint_i32(buffer@)
                <= MAX_STRING_LENGTH && varint_len(buffer@) + varint_i32(buffer@) > buffer@.len(),
            Err(ReadError::InvalidString) => varint_has_boundary(buffer@) && 0 <= varint_i32(
                buffer@,
            ) <= MAX_STRING_LENGTH && varint_len(buffer@) + varint_i32(buffer@) <= buffer@.len()
                && !valid_utf8(string_payload(buffer@)),
            Err(ReadError::UnknownVariant(_)) => false,
        },
{
    let (length, read_len) = match read_varint(buffer) {
        Ok(p) => p,
        Err(e) => {
            return Err(ReadError::VarIntError(e));
        },
    };
    if length < 0 {
        return Err(ReadError::MalformedBuffer);
    }
    if length > 32767 {
        return Err(ReadError::TooManyBytes);
    }
    let length = length as usize;
    if buffer.len() - read_len < length {
        return Err(ReadError::Incomplete);
    }
    let payload = slice_subrange(buffer, read_len, read_len + length);
    match bytes_to_string(payload) {
        Some(s) => Ok((s, read_len + length)),
        None => Err(ReadError::InvalidString),
    }
}

/// The wire encoding of a string: a VarInt byte-length prefix followed by
/// the UTF-8 bytes.
pub open spec fn string_encoding(s: Seq<char>) -> Seq<u8> {
    varint_encoding(vstd::utf8::encode_utf8(s).len() as u32) + vstd::utf8::encode_utf8(s)
}

/// A string fits the wire format when its UTF-8 form is within the maximum.
pub open spec fn string_encodable(s: Seq<char>) -> bool {
    vstd::utf8::encode_utf8(s).len() <= MAX_STRING_LENGTH
}

/// Writes a length-prefixed UTF-8 string, failing exactly when the string's
/// UTF-8 form exceeds the maximum length.
pub fn write_string(s: &str) -> (r: Result<Vec<u8>, WriteError>)
    ensures
        r is Ok <==> string_encodable(s@),
        r matches Ok(b) ==> b@ == string_encoding(s@),
{
    let bytes = s.as_bytes();
    if bytes.len() > 32767 {
        return Err(WriteError::TooLong);
    }
    let (head, head_len) = write_varint(bytes.len() as i32).unwrap();
    proof {
        assert((bytes@.len() as i32) as u32 == bytes@.len() as u32);
    }
    let mut out: Vec<u8> = Vec::new();
    let head_slice = slice_subrange(head.as_slice(), 0, head_len);
    out.extend_from_slice(head_slice);
    out.extend_from_slice(bytes);
    Ok(out)
}

impl Readable for String {
    open spec fn decodable(buf: Seq<u8>) -> bool {
        string_decodable(buf)
    }

    open spec fn decoded_len(buf: Seq<u8>) -> int {
        string_decoded_len(buf)
    }

    open spec fn decodes_to(buf: Seq<u8>, v: &String) -> bool {
        string_decodable(buf) && v@ == decode_utf8(string_payload(buf))
    }

    open spec fn decode_incomplete(buf: Seq<u8>) -> bool {
        string_decode_incomplete(buf)
    }

    fn read(buffer: &[u8]) -> (r: Result<(Self, usize), ReadError>) {
        read_string(buffer)
    }
}

impl Writeable for String {
    open spec fn encoding(&self) -> Seq<u8> {
        string_encoding(self@)
    }

    open spec fn encodable(&self) -> bool {
        string_encodable(self@)
    }

    fn write(&self) -> (r: Result<Vec<u8>, WriteError>) {
        write_string(self.as_str())
    }
}

// ---------------------------------------------------------------------------
// Fixed-width primitives.
// ---------------------------------------------------------------------------

impl Readable for u8 {
    open spec fn decodable(buf: Seq<u8>) -> bool {
        buf.len() >= 1
    }

    open spec fn decoded_len(buf: Seq<u8>) -> int {
        1
    }

    open spec fn decodes_to(buf: Seq<u8>, v: &u8) -> bool {
        buf.len() >= 1 && *v == buf[0]
    }

    open spec fn decode_incomplete(buf: Seq<u8>) -> bool {
        buf.len() < 1
    }

    fn read(buffer: &[u8]) -> (r: Result<(Self, usize), ReadError>)
        ensures
            r matches Err(e) ==> e == ReadError::Incomplete,
    {
        if buffer.len() < 1 {
            return Err(ReadError::Incomplete);
        }
        Ok((buffer[0], 1))
    }
}

impl Writeable for u8 {
    open spec fn encoding(&self) -> Seq<u8> {
        seq![*self]
    }

    open spec fn encodable(&self) -> bool {
        true
    }

    fn write(&self) -> (r: Result<Vec<u8>, WriteError>) {
        let mut out: Vec<u8> = Vec::new();
        out.push(*self);
        proof {
            assert(out@ =~= seq![*self]);
        }
        Ok(out)
    }
}

impl Readable for i8 {
    open spec fn decodable(buf: Seq<u8>) -> bool {
        buf.len() >= 1
    }

    open spec fn decoded_len(buf: Seq<u8>) -> int {
        1
    }

    open spec fn decodes_to(buf: Seq<u8>, v: &i8) -> bool {
        buf.len() >= 1 && *v == buf[0] as i8
    }

    open spec fn decode_incomplete(buf: Seq<u8>) -> bool {
        buf.len() < 1
    }

    fn read(buffer: &[u8]) -> (r: Result<(Self, usize), ReadError>)
        ensures
            r matches Err(e) ==> e == ReadError::Incomplete,
    {
        if buffer.len() < 1 {
            return Err(ReadError::Incomplete);
        }
        Ok((buffer[0] as i8, 1))
    }
}

impl Writeable for i8 {
    open spec fn encoding(&self) -> Seq<u8> {
        seq![*self as u8]
    }

    open spec fn encodable(&self) -> bool {
        true
    }

    fn write(&self) -> (r: Result<Vec<u8>, WriteError>) {
        let mut out: Vec<u8> = Vec::new();
        out.push(*self as u8);
        proof {
            assert(out@ =~= seq![*self as u8]);
        }
        Ok(out)
    }
}

impl Readable for bool {
    open spec fn decodable(buf: Seq<u8>) -> bool {
        buf.len() >= 1
    }

    open spec fn decoded_len(buf: Seq<u8>) -> int {
        1
    }

    /// Lenient decode: exactly the byte 0x01 reads as `true`, every other
    /// byte reads as `false`.
    open spec fn decodes_to(buf: Seq<u8>, v: &bool) -> bool {
        buf.len() >= 1 && *v == (buf[0] == 1)
    }

    open spec fn decode_incomplete(buf: Seq<u8>) -> bool {
        buf.len() < 1
    }

    fn read(buffer: &[u8]) -> (r: Result<(Self, usize), ReadError>)
        ensures
            r matches Err(e) ==> e == ReadError::Incomplete,
    {
        if buffer.len() < 1 {
            return Err(ReadError::Incomplete);
        }
        Ok((buffer[0] == 0x01, 1))
    }
}

impl Writeable for bool {
    open spec fn encoding(&self) -> Seq<u8> {
        seq![if *self { 1u8 } else { 0u8 }]
    }

    open spec fn encodable(&self) -> bool {
        true
    }

    fn write(&self) -> (r: Result<Vec<u8>, WriteError>) {
        let mut out: Vec<u8> = Vec::new();
        out.push(if *self { 0x01 } else { 0x00 });
        proof {
            assert(out@ =~= seq![if *self { 1u8 } else { 0u8 }]);
        }
        Ok(out)
    }
}

impl Readable for u16 {
    open spec fn decodable(buf: Seq<u8>) -> bool {
        buf.len() >= 2
    }

    open spec fn decoded_len(buf: Seq<u8>) -> int {
        2
    }

    open spec fn decodes_to(buf: Seq<u8>, v: &u16) -> bool {
        buf.len() >= 2 && *v == u16_from_be(buf[0], buf[1])
    }

    open spec fn decode_incomplete(buf: Seq<u8>) -> bool {
        buf.len() < 2
    }

    fn read(buffer: &[u8]) -> (r: Result<(Self, usize), ReadError>)
        ensures
            r matches Err(e) ==> e == ReadError::Incomplete,
    {
        if buffer.len() < 2 {
            return Err(ReadError::Incomplete);
        }
        let value: u16 = ((buffer[0] as u16) << 8) | (buffer[1] as u16);
        Ok((value, 2))
    }
}

impl Writeable for u16 {
    open spec fn encoding(&self) -> Seq<u8> {
        u16_be_bytes(*self)
    }

    open spec fn encodable(&self) -> bool {
        true
    }

    fn write(&self) -> (r: Result<Vec<u8>, WriteError>) {
        let mut out: Vec<u8> = Vec::new();
        out.push((*self >> 8) as u8);
        out.push(*self as u8);
        proof {
            assert(out@ =~= u16_be_bytes(*self));
        }
        Ok(out)
    }
}

impl Readable for i64 {
    open spec fn decodable(buf: Seq<u8>) -> bool {
        buf.len() >= 8
    }

    open spec fn decoded_len(buf: Seq<u8>) -> int {
        8
    }

    open spec fn decodes_to(buf: Seq<u8>, v: &i64) -> bool {
        buf.len() >= 8 && *v as u64 == u64_from_be(buf.take(8))
    }

    open spec fn decode_incomplete(buf: Seq<u8>) -> bool {
        buf.len() < 8
    }

    fn read(buffer: &[u8]) -> (r: Result<(Self, usize), ReadError>)
        ensures
            r matches Err(e) ==> e == ReadError::Incomplete,
    {
        if buffer.len() < 8 {
            return Err(ReadError::Incomplete);
        }
        let value: u64 = ((buffer[0] as u64) << 56) | ((buffer[1] as u64) << 48) | ((
        buffer[2] as u64) << 40) | ((buffer[3] as u64) << 32) | ((buffer[4] as u64) << 24) | ((
        buffer[5] as u64) << 16) | ((buffer[6] as u64) << 8) | (buffer[7] as u64);
        proof {
            assert(buffer@.take(8)[0] == buffer@[0]);
            assert(u64_from_be(buffer@.take(8)) == value);
            assert(((value as i64) as u64) == value) by (bit_vector);
        }
        Ok((value as i64, 8))
    }
}

impl Writeable for i64 {
    open spec fn encoding(&self) -> Seq<u8> {
        u64_be_bytes(*self as u64)
    }

    open spec fn encodable(&self) -> bool {
        true
    }

    fn write(&self) -> (r: Result<Vec<u8>, WriteError>) {
        let x: u64 = *self as u64;
        let mut out: Vec<u8> = Vec::new();
        out.push((x >> 56) as u8);
        out.push((x >> 48) as u8);
        out.push((x >> 40) as u8);
        out.push((x >> 32) as u8);
        out.push((x >> 24) as u8);
        out.push((x >> 16) as u8);
        out.push((x >> 8) as u8);
        out.push(x as u8);
        proof {
            assert(out@ =~= u64_be_bytes(x));
        }
        Ok(out)
    }
}

/// A 128-bit UUID travels as 16 raw big-endian bytes, no length prefix.
impl Readable for u128 {
    open spec fn decodable(buf: Seq<u8>) -> bool {
        buf.len() >= 16
    }

    open spec fn decoded_len(buf: Seq<u8>) -> int {
        16
    }

    open spec fn decodes_to(buf: Seq<u8>, v: &u128) -> bool {
        buf.len() >= 16 && *v == u128_from_be(buf.take(16))
    }

    open spec fn decode_incomplete(buf: Seq<u8>) -> bool {
        buf.len() < 16
    }

    fn read(buffer: &[u8]) -> (r: Result<(Self, usize), ReadError>)
        ensures
            r matches Err(e) ==> e == ReadError::Incomplete,
    {
        if buffer.len() < 16 {
            return Err(ReadError::Incomplete);
        }
        let value: u128 = ((buffer[0] as u128) << 120) | ((buffer[1] as u128) << 112) | ((
        buffer[2] as u128) << 104) | ((buffer[3] as u128) << 96) | ((buffer[4] as u128) << 88) | ((
        buffer[5] as u128) << 80) | ((buffer[6] as u128) << 72) | ((buffer[7] as u128) << 64) | ((
        buffer[8] as u128) << 56) | ((buffer[9] as u128) << 48) | ((buffer[10] as u128) << 40) | ((
        buffer[11] as u128) << 32) | ((buffer[12] as u128) << 24) | ((buffer[13] as u128) << 16)
            | ((buffer[14] as u128) << 8) | (buffer[15] as u128);
        proof {
            assert(u128_from_be(buffer@.take(16)) == value);
        }
        Ok((value, 16))
    }
}

impl Writeable for u128 {
    open spec fn encoding(&self) -> Seq<u8> {
        u128_be_bytes(*self)
    }

    open spec fn encodable(&self) -> bool {
        true
    }

    fn write(&self) -> (r: Result<Vec<u8>, WriteError>) {
        let x: u128 = *self;
        let mut out: Vec<u8> = Vec::new();
        out.push((x >> 120) as u8);
        out.push((x >> 112) as u8);
        out.push((x >> 104) as u8);
        out.push((x >> 96) as u8);
        out.push((x >> 88) as u8);
        out.push((x >> 80) as u8);
        out.push((x >> 72) as u8);
        out.push((x >> 64) as u8);
        out.push((x >> 56) as u8);
        out.push((x >> 48) as u8);
        out.push((x >> 40) as u8);
        out.push((x >> 32) as u8);
        out.push((x >> 24) as u8);
        out.push((x >> 16) as u8);
        out.push((x >> 8) as u8);
        out.push(x as u8);
        proof {
            assert(out@ =~= u128_be_bytes(x));
        }
        Ok(out)
    }
}

/// The four big-endian bytes of a `u32`.
pub open spec fn u32_be_bytes(x: u32) -> Seq<u8> {
    seq![(x >> 24) as u8, (x >> 16) as u8, (x >> 8) as u8, x as u8]
}

/// The `u32` spelled by four big-endian bytes.
pub open spec fn u32_from_be(s: Seq<u8>) -> u32 {
    ((s[0] as u32) << 24) | ((s[1] as u32) << 16) | ((s[2] as u32) << 8) | (s[3] as u32)
}

impl Readable for i32 {
    open spec fn decodable(buf: Seq<u8>) -> bool {
        buf.len() >= 4
    }

    open spec fn decoded_len(buf: Seq<u8>) -> int {
        4
    }

    open spec fn decodes_to(buf: Seq<u8>, v: &i32) -> bool {
        buf.len() >= 4 && *v as u32 == u32_from_be(buf.take(4))
    }

    open spec fn decode_incomplete(buf: Seq<u8>) -> bool {
        buf.len() < 4
    }

    fn read(buffer: &[u8]) -> (r: Result<(Self, usize), ReadError>)
        ensures
            r matches Err(e) ==> e == ReadError::Incomplete,
    {
        if buffer.len() < 4 {
            return Err(ReadError::Incomplete);
        }
        let value: u32 = ((buffer[0] as u32) << 24) | ((buffer[1] as u32) << 16) | ((
        buffer[2] as u32) << 8) | (buffer[3] as u32);
        proof {
            assert(u32_from_be(buffer@.take(4)) == value);
            assert(((value as i32) as u32) == value) by (bit_vector);
        }
        Ok((value as i32, 4))
    }
}

impl Writeable for i32 {
    open spec fn encoding(&self) -> Seq<u8> {
        u32_be_bytes(*self as u32)
    }

    open spec fn encodable(&self) -> bool {
        true
    }

    fn write(&self) -> (r: Result<Vec<u8>, WriteError>) {
        let x: u32 = *self as u32;
        let mut out: Vec<u8> = Vec::new();
        out.push((x >> 24) as u8);
        out.push((x >> 16) as u8);
        out.push((x >> 8) as u8);
        out.push(x as u8);
        proof {
            assert(out@ =~= u32_be_bytes(x));
        }
        Ok(out)
    }
}

/// Four big-endian bytes; payloads that carry an IEEE-754 single-precision
/// bit pattern travel as this type.
impl Writeable for u32 {
    open spec fn encoding(&self) -> Seq<u8> {
        u32_be_bytes(*self)
    }

    open spec fn encodable(&self) -> bool {
        true
    }

    fn write(&self) -> (r: Result<Vec<u8>, WriteError>) {
        let x: u32 = *self;
        let mut out: Vec<u8> = Vec::new();
        out.push((x >> 24) as u8);
        out.push((x >> 16) as u8);
        out.push((x >> 8) as u8);
        out.push(x as u8);
        proof {
            assert(out@ =~= u32_be_bytes(x));
        }
        Ok(out)
    }
}

/// Eight big-endian bytes; payloads that carry an IEEE-754 double-precision
/// bit pattern travel as this type.
impl Writeable for u64 {
    open spec fn encoding(&self) -> Seq<u8> {
        u64_be_bytes(*self)
    }

    open spec fn encodable(&self) -> bool {
        true
    }

    fn write(&self) -> (r: Result<Vec<u8>, WriteError>) {
        let x: u64 = *self;
        let mut out: Vec<u8> = Vec::new();
        out.push((x >> 56) as u8);
        out.push((x >> 48) as u8);
        out.push((x >> 40) as u8);
        out.push((x >> 32) as u8);
        out.push((x >> 24) as u8);
        out.push((x >> 16) as u8);
        out.push((x >> 8) as u8);
        out.push(x as u8);
        proof {
            assert(out@ =~= u64_be_bytes(x));
        }
        Ok(out)
    }
}

/// An optional value: a leading boolean presence flag, then the value only
/// if present.
impl<T: Readable> Readable for Option<T> {
    open spec fn decodable(buf: Seq<u8>) -> bool {
        &&& buf.len() >= 1
    &&& (buf[0] == 1 ==> T::decodable(buf.skip(1)))
    }

    open spec fn decoded_len(buf: Seq<u8>) -> int {
        if buf.len() >= 1 && buf[0] == 1 {
            1 + T::decoded_len(buf.skip(1))
        } else {
            1
        }
    }

    open spec fn decodes_to(buf: Seq<u8>, v: &Self) -> bool {
        &&& buf.len() >= 1
    &&& if buf[0] == 1 {
            v matches Some(inner) && T::decodes_to(buf.skip(1), &inner)
        } else {
            v is None
        }
    }

    open spec fn decode_incomplete(buf: Seq<u8>) -> bool {
        if buf.len() < 1 {
            true
        } else if buf[0] == 1 {
            T::decode_incomplete(buf.skip(1))
        } else {
            false
        }
    }

    fn read(buffer: &[u8]) -> (r: Result<(Self, usize), ReadError>) {
        if buffer.len() < 1 {
            return Err(ReadError::Incomplete);
        }
        if buffer[0] == 0x01 {
            let tail = slice_subrange(buffer, 1, buffer.len());
            match T::read(tail) {
                Ok((value, n)) => Ok((Some(value), 1 + n)),
                Err(e) => Err(e),
            }
        } else {
            Ok((None, 1))
        }
    }
}

impl<T: Writeable> Writeable for Option<T> {
    open spec fn encoding(&self) -> Seq<u8> {
        match self {
            Some(inner) => seq![1u8] + inner.encoding(),
            None => seq![0u8],
        }
    }

    open spec fn encodable(&self) -> bool {
        self matches Some(inner) ==> inner.encodable()
    }

    fn write(&self) -> (r: Result<Vec<u8>, WriteError>) {
        let mut out: Vec<u8> = Vec::new();
        match self {
            Some(inner) => {
                out.push(0x01);
                let piece = match inner.write() {
                    Ok(b) => b,
                    Err(e) => {
                        return Err(e);
                    },
                };
                out.extend_from_slice(piece.as_slice());
                proof {
                    assert(out@ =~= seq![1u8] + inner.encoding());
                }
            },
            None => {
                out.push(0x00);
                proof {
                    assert(out@ =~= seq![0u8]);
                }
            },
        }
        Ok(out)
    }
}

/// A raw byte payload consumes the whole remaining buffer on read and writes
/// itself verbatim.
impl Readable for Vec<u8> {
    open spec fn decodable(buf: Seq<u8>) -> bool {
        true
    }

    open spec fn decoded_len(buf: Seq<u8>) -> int {
        buf.len() as int
    }

    open spec fn decodes_to(buf: Seq<u8>, v: &Vec<u8>) -> bool {
        v@ == buf
    }

    open spec fn decode_incomplete(buf: Seq<u8>) -> bool {
        false
    }

    fn read(buffer: &[u8]) -> (r: Result<(Self, usize), ReadError>) {
        Ok((slice_to_vec(buffer), buffer.len()))
    }
}

impl Writeable for Vec<u8> {
    open spec fn encoding(&self) -> Seq<u8> {
        self@
    }

    open spec fn encodable(&self) -> bool {
        true
    }

    fn write(&self) -> (r: Result<Vec<u8>, WriteError>) {
        let mut out: Vec<u8> = Vec::new();
        out.extend_from_slice(self.as_slice());
        proof {
            assert(out@ =~= self@);
        }
        Ok(out)
    }
}

// ---------------------------------------------------------------------------
// Length-prefixed homogeneous sequences.
// ---------------------------------------------------------------------------

/// Represents a prefixed array. The simplest container out there: a VarInt
/// element count, then each element in order.
#[derive(Debug, Clone)]
pub struct PrefixedArray<T>(pub Vec<T>);

/// The byte length of the element at the front of `buf`, clamped into the
/// buffer so that sequence recursions below stay within range.
pub open spec fn step_len<T: Readable>(buf: Seq<u8>) -> int {
    let n = T::decoded_len(buf);
    if 0 <= n <= buf.len() {
        n
    } else {
        0
    }
}

/// `k` consecutive elements decode from the front of `buf`.
pub open spec fn elems_decodable<T: Readable>(buf: Seq<u8>, k: int) -> bool
    decreases k,
{
    k <= 0 || (T::decodable(buf) && elems_decodable::<T>(buf.skip(step_len::<T>(buf)), k - 1))
}

/// The total byte length of `k` consecutive elements at the front of `buf`.
pub open spec fn elems_decoded_len<T: Readable>(buf: Seq<u8>, k: int) -> int
    decreases k,
{
    if k <= 0 {
        0
    } else {
        step_len::<T>(buf) + elems_decoded_len::<T>(buf.skip(step_len::<T>(buf)), k - 1)
    }
}

/// Among the first `k` elements at the front of `buf`, the first one that
/// fails to decode fails for want of more bytes.
pub open spec fn elems_decode_incomplete<T: Readable>(buf: Seq<u8>, k: int) -> bool
    decreases k,
{
    if k <= 0 {
        false
    } else if !T::decodable(buf) {
        T::decode_incomplete(buf)
    } else {
        elems_decode_incomplete::<T>(buf.skip(step_len::<T>(buf)), k - 1)
    }
}

/// `vs` are the `k` consecutive elements decoded from the front of `buf`.
pub open spec fn elems_decode_to<T: Readable>(buf: Seq<u8>, k: int, vs: Seq<T>) -> bool
    decreases k,
{
    if k <= 0 {
        vs.len() == 0
    } else {
        &&& vs.len() == k
        &&& T::decodes_to(buf, &vs[0])
        &&& elems_decode_to::<T>(buf.skip(step_len::<T>(buf)), k - 1, vs.drop_first())
    }
}

/// The bytes of `k` consecutive elements fit inside `buf`.
pub proof fn lemma_elems_decoded_len_bounds<T: Readable>(buf: Seq<u8>, k: int)
    requires
        k >= 0,
    ensures
        0 <= elems_decoded_len::<T>(buf, k) <= buf.len(),
    decreases k,
{
    if k > 0 {
        lemma_elems_decoded_len_bounds::<T>(buf.skip(step_len::<T>(buf)), k - 1);
    }
}

/// Appending one more decoded element extends a decoded element run by one.
pub proof fn lemma_elems_snoc<T: Readable>(buf: Seq<u8>, j: int, vs: Seq<T>, v: T)
    requires
        j >= 0,
        elems_decodable::<T>(buf, j),
        elems_decode_to::<T>(buf, j, vs),
        T::decodable(buf.skip(elems_decoded_len::<T>(buf, j))),
        T::decodes_to(buf.skip(elems_decoded_len::<T>(buf, j)), &v),
    ensures
        elems_decodable::<T>(buf, j + 1),
        elems_decode_to::<T>(buf, j + 1, vs.push(v)),
        elems_decoded_len::<T>(buf, j + 1) == elems_decoded_len::<T>(buf, j) + step_len::<T>(
            buf.skip(elems_decoded_len::<T>(buf, j)),
        ),
    decreases j,
{
    if j == 0 {
        assert(elems_decoded_len::<T>(buf, 0) == 0);
        assert(buf.skip(0) =~= buf);
        assert(T::decodable(buf));
        assert(T::decodes_to(buf, &v));
        assert(vs.len() == 0);
        let s = step_len::<T>(buf);
        assert(elems_decodable::<T>(buf.skip(s), 0));
        assert(elems_decodable::<T>(buf, 1));
        assert(vs.push(v)[0] == v);
        assert(vs.push(v).drop_first() =~= vs);
        assert(elems_decode_to::<T>(buf.skip(s), 0, vs.push(v).drop_first()));
        assert(elems_decode_to::<T>(buf, 1, vs.push(v)));
        assert(elems_decoded_len::<T>(buf, 1) == s + elems_decoded_len::<T>(buf.skip(s), 0));
    } else {
        let s = step_len::<T>(buf);
        let rest = buf.skip(s);
        assert(elems_decodable::<T>(rest, j - 1));
        assert(elems_decode_to::<T>(rest, j - 1, vs.drop_first()));
        assert(elems_decoded_len::<T>(buf, j) == s + elems_decoded_len::<T>(rest, j - 1));
        lemma_elems_decoded_len_bounds::<T>(rest, j - 1);
        assert(rest.skip(elems_decoded_len::<T>(rest, j - 1)) =~= buf.skip(
            elems_decoded_len::<T>(buf, j),
        ));
        lemma_elems_snoc::<T>(rest, j - 1, vs.drop_first(), v);
        assert(elems_decodable::<T>(rest, j));
        assert(elems_decodable::<T>(buf, j + 1));
        assert(vs.push(v)[0] == vs[0]);
        assert(T::decodes_to(buf, &vs[0]));
        assert(vs.push(v).drop_first() =~= vs.drop_first().push(v));
        assert(elems_decode_to::<T>(rest, j, vs.push(v).drop_first()));
        assert(elems_decode_to::<T>(buf, j + 1, vs.push(v)));
        assert(elems_decoded_len::<T>(buf, j + 1) == s + elems_decoded_len::<T>(rest, j));
    }
}

/// When the element after a decoded run of `j` elements does not decode, no
/// run of `k > j` elements decodes from `buf` either, and the run's failure
/// is incompleteness exactly when that element's failure is.
pub proof fn lemma_elems_fail<T: Readable>(buf: Seq<u8>, j: int, k: int)
    requires
        0 <= j < k,
        elems_decodable::<T>(buf, j),
        !T::decodable(buf.skip(elems_decoded_len::<T>(buf, j))),
    ensures
        !elems_decodable::<T>(buf, k),
        elems_decode_incomplete::<T>(buf, k) == T::decode_incomplete(
            buf.skip(elems_decoded_len::<T>(buf, j)),
        ),
    decreases j,
{
    if j == 0 {
        assert(buf.skip(0) =~= buf);
    } else {
        let s = step_len::<T>(buf);
        let rest = buf.skip(s);
        lemma_elems_decoded_len_bounds::<T>(rest, j - 1);
        assert(rest.skip(elems_decoded_len::<T>(rest, j - 1)) =~= buf.skip(
            elems_decoded_len::<T>(buf, j),
        ));
        lemma_elems_fail::<T>(rest, j - 1, k - 1);
    }
}

impl<T: Readable> Readable for PrefixedArray<T> {
    open spec fn decodable(buf: Seq<u8>) -> bool {
        &&& varint_has_boundary(buf)
        &&& varint_i32(buf) >= 0
        &&& buf.len() >= varint_i32(buf)
        &&& elems_decodable::<T>(buf.skip(varint_len(buf)), varint_i32(buf) as int)
    }

    open spec fn decoded_len(buf: Seq<u8>) -> int {
        varint_len(buf) + elems_decoded_len::<T>(buf.skip(varint_len(buf)), varint_i32(buf) as int)
    }

    open spec fn decodes_to(buf: Seq<u8>, v: &Self) -> bool {
        elems_decode_to::<T>(buf.skip(varint_len(buf)), varint_i32(buf) as int, v.0@)
    }

    open spec fn decode_incomplete(buf: Seq<u8>) -> bool {
        if !varint_has_boundary(buf) {
            buf.len() < 5
        } else if varint_i32(buf) < 0 || buf.len() < varint_i32(buf) {
            false
        } else {
            elems_decode_incomplete::<T>(buf.skip(varint_len(buf)), varint_i32(buf) as int)
        }
    }

    fn read(buffer: &[u8]) -> (r: Result<(Self, usize), ReadError>) {
        let (count_v, count_n) = match read_varint(buffer) {
            Ok(p) => p,
            Err(e) => {
                return Err(ReadError::VarIntError(e));
            },
        };
        if count_v < 0 {
            return Err(ReadError::MalformedBuffer);
        }
        let count = count_v as usize;
        if buffer.len() < count {
            return Err(ReadError::MalformedBuffer);
        }
        let ghost region = buffer@.skip(count_n as int);
        let mut elements: Vec<T> = Vec::new();
        let mut consumed: usize = count_n;
        let mut j: usize = 0;
        while j < count
            invariant
                varint_has_boundary(buffer@),
                count == varint_i32(buffer@),
                buffer@.len() >= count,
                count_n as int == varint_len(buffer@),
                count_n <= consumed <= buffer@.len(),
                region == buffer@.skip(count_n as int),
                0 <= j <= count,
                elements@.len() == j,
                consumed as int == count_n + elems_decoded_len::<T>(region, j as int),
                elems_decodable::<T>(region, j as int),
                elems_decode_to::<T>(region, j as int, elements@),
            decreases count - j,
        {
            proof {
                assert(buffer@.skip(consumed as int) =~= region.skip(
                    elems_decoded_len::<T>(region, j as int),
                ));
            }
            let tail = slice_subrange(buffer, consumed, buffer.len());
            match T::read(tail) {
                Ok((elem, n)) => {
                    proof {
                        lemma_elems_snoc::<T>(region, j as int, elements@, elem);
                    }
                    elements.push(elem);
                    consumed = consumed + n;
                    j = j + 1;
                },
                Err(e) => {
                    proof {
                        lemma_elems_fail::<T>(region, j as int, count as int);
                        assert(T::decode_incomplete(tail@) == T::decode_incomplete(
                            region.skip(elems_decoded_len::<T>(region, j as int)),
                        ));
                        assert(Self::decode_incomplete(buffer@) == elems_decode_incomplete::<T>(
                            region,
                            count as int,
                        ));
                    }
                    return Err(e);
                },
            }
        }
        Ok((PrefixedArray(elements), consumed))
    }
}

/// The concatenated encodings of the elements of `vs`, in order.
pub open spec fn elems_encoding<T: Writeable>(vs: Seq<T>) -> Seq<u8>
    decreases vs.len(),
{
    if vs.len() == 0 {
        Seq::empty()
    } else {
        elems_encoding::<T>(vs.drop_last()) + vs.last().encoding()
    }
}

/// Every element of `vs` fits its encoding.
pub open spec fn elems_encodable<T: Writeable>(vs: Seq<T>) -> bool {
    forall|i: int| 0 <= i < vs.len() ==> #[trigger] vs[i].encodable()
}

impl<T: Writeable> Writeable for PrefixedArray<T> {
    open spec fn encoding(&self) -> Seq<u8> {
        varint_encoding(self.0@.len() as u32) + elems_encoding::<T>(self.0@)
    }

    open spec fn encodable(&self) -> bool {
        self.0@.len() <= 0x7fffffff && elems_encodable::<T>(self.0@)
    }

    fn write(&self) -> (r: Result<Vec<u8>, WriteError>) {
        if self.0.len() > 0x7fffffff {
            return Err(WriteError::TooLong);
        }
        let (head, head_len) = write_varint(self.0.len() as i32).unwrap();
        proof {
            assert((self.0@.len() as i32) as u32 == self.0@.len() as u32);
        }
        let mut out: Vec<u8> = Vec::new();
        out.extend_from_slice(slice_subrange(head.as_slice(), 0, head_len));
        let mut i: usize = 0;
        while i < self.0.len()
            invariant
                0 <= i <= self.0@.len(),
                elems_encodable::<T>(self.0@.take(i as int)),
                out@ == varint_encoding(self.0@.len() as u32) + elems_encoding::<T>(
                    self.0@.take(i as int),
                ),
            decreases self.0@.len() - i,
        {
            match self.0[i].write() {
                Ok(piece) => {
                    out.extend_from_slice(piece.as_slice());
                    proof {
                        assert(self.0@.take(i + 1).drop_last() =~= self.0@.take(i as int));
                        assert(self.0@.take(i + 1).last() == self.0@[i as int]);
                        assert(forall|q: int|
                            0 <= q < i + 1 ==> #[trigger] self.0@.take(i + 1)[q].encodable());
                    }
                    i = i + 1;
                },
                Err(e) => {
                    return Err(e);
                },
            }
        }
        proof {
            assert(self.0@.take(self.0@.len() as int) =~= self.0@);
        }
        Ok(out)
    }
}

impl Readable for VarInt {
    open spec fn decodable(buf: Seq<u8>) -> bool {
        varint_has_boundary(buf)
    }

    open spec fn decoded_len(buf: Seq<u8>) -> int {
        varint_len(buf)
    }

    open spec fn decodes_to(buf: Seq<u8>, v: &VarInt) -> bool {
        varint_has_boundary(buf) && v.0 == varint_i32(buf)
    }

    open spec fn decode_incomplete(buf: Seq<u8>) -> bool {
        !varint_has_boundary(buf) && buf.len() < 5
    }

    fn read(buffer: &[u8]) -> (r: Result<(Self, usize), ReadError>) {
        match read_varint(buffer) {
            Ok((value, read_length)) => Ok((VarInt(value), read_length)),
            Err(e) => Err(ReadError::VarIntError(e)),
        }
    }
}

impl Writeable for VarInt {
    open spec fn encoding(&self) -> Seq<u8> {
        varint_encoding(self.0 as u32)
    }

    open spec fn encodable(&self) -> bool {
        true
    }

    fn write(&self) -> (r: Result<Vec<u8>, WriteError>) {
        let (buf, n) = write_varint(self.0).unwrap();
        let written = slice_subrange(buf.as_slice(), 0, n);
        Ok(slice_to_vec(written))
    }
}

} // verus!
