//! The packet framer: a resettable byte accumulator that extracts complete,
//! length-prefixed frames from a live byte stream.
//!
//! Bytes arrive through `extend_from_slice` in arbitrary chunks; a frame may
//! be split across reads, including mid-VarInt.  `try_next_packet` yields a
//! `(packet_id, body)` pair only once a whole frame is buffered, consuming
//! nothing otherwise, and must be called in a loop because one read may
//! complete zero, one, or many frames.

use vstd::prelude::*;

use crate::bytebuf::{
    bm_advance, bm_as_slice, bm_clear, bm_extend_from_slice, bm_len, bm_split_to,
    bm_with_capacity, bytes_mut_view,
};
use crate::protocol::ReadError;
use crate::varint::{
    read_varint, varint_has_boundary, varint_i32, varint_len, VarInt, VarIntError,
};

verus! {

/// The default capacity for a connection's frame accumulator.  The buffer
/// clears itself up after each packet, so this amount is plenty for a
/// connection.
pub const BUFFER_CAPACITY: usize = 4096;

/// Errors that can occur when working with `PacketReader`.
#[derive(Debug, Clone, Copy, PartialEq, Eq, Structural)]
pub enum PacketReaderError {
    /// Something went wrong while reading the frame's VarInts.
    ReadError(ReadError),
    /// The packet is malformed: its declared length is less than 0.
    MalformedPacket(i32),
}

/// An efficient reader for packets sent over the wire: a rolling buffer from
/// which fully consumed prefixes are discarded, never re-scanned.
pub struct PacketReader {
    buffer: bytes::BytesMut,
}

impl View for PacketReader {
    type V = Seq<u8>;

    /// The bytes currently accumulated and not yet consumed.
    closed spec fn view(&self) -> Seq<u8> {
        bytes_mut_view(self.buffer)
    }
}

/// A complete frame sits at the front of `s`: a complete, nonnegative
/// declared length whose whole body is present.
pub open spec fn frame_ready(s: Seq<u8>) -> bool {
    &&& varint_has_boundary(s)
    &&& varint_i32(s) >= 0
    &&& varint_len(s) + varint_i32(s) <= s.len()
}

/// The declared-length body of the frame at the front of `s`.
pub open spec fn frame_body(s: Seq<u8>) -> Seq<u8> {
    s.subrange(varint_len(s), varint_len(s) + varint_i32(s))
}

/// What remains of `s` after the frame at its front.
pub open spec fn frame_rest(s: Seq<u8>) -> Seq<u8> {
    s.skip(varint_len(s) + varint_i32(s))
}

impl Default for PacketReader {
    /// A reader with the default buffer capacity and no data.
    fn default() -> (r: Self)
        ensures
            r@ == Seq::<u8>::empty(),
    {
        PacketReader::with_capacity(BUFFER_CAPACITY)
    }
}

impl PacketReader {
    /// Creates a new `PacketReader` with the provided capacity for the
    /// underlying buffer.
    pub fn with_capacity(capacity: usize) -> (r: Self)
        ensures
            r@ == Seq::<u8>::empty(),
    {
        PacketReader { buffer: bm_with_capacity(capacity) }
    }

    /// Extends the underlying buffer from a provided slice.
    pub fn extend_from_slice(&mut self, data: &[u8])
        ensures
            final(self)@ == old(self)@ + data@,
    {
        bm_extend_from_slice(&mut self.buffer, data);
    }

    /// How many bytes are currently buffered.
    pub fn len(&self) -> (r: usize)
        ensures
            r == self@.len(),
    {
        bm_len(&self.buffer)
    }

    /// Clears the underlying buffer.
    pub fn clear(&mut self)
        ensures
            final(self)@ == Seq::<u8>::empty(),
    {
        bm_clear(&mut self.buffer);
    }

    /// Tries to read a packet from the underlying buffer, returning the
    /// packet's id and body once a whole frame is buffered.
    ///
    /// `Ok(None)` means "no frame yet": either the length prefix itself is
    /// incomplete or the declared body has not fully arrived; in both cases
    /// nothing is consumed and the caller feeds more bytes and retries.  The
    /// one consuming `Ok(None)` case is a complete frame whose body is too
    /// short to hold the packet-id VarInt: that frame is dropped.  A
    /// negative declared length fails with `MalformedPacket`, an over-long
    /// VarInt with `ReadError`; neither consumes anything.
    pub fn try_next_packet(&mut self) -> (r: Result<
        Option<(VarInt, bytes::BytesMut)>,
        PacketReaderError,
    >)
        ensures
            (r matches Ok(Some(_))) <==> (frame_ready(old(self)@) && varint_has_boundary(
                frame_body(old(self)@),
            )),
            r matches Ok(Some(q)) ==> ({
                let body = frame_body(old(self)@);
                &&& q.0.0 == varint_i32(body)
                &&& bytes_mut_view(q.1) == body.skip(varint_len(body))
                &&& final(self)@ == frame_rest(old(self)@)
            }),
            r matches Ok(None) ==> ({
                ||| (!varint_has_boundary(old(self)@) && old(self)@.len() < 5 && final(self)@
                    == old(self)@)
                ||| (varint_has_boundary(old(self)@) && varint_i32(old(self)@) >= 0 && varint_len(
                    old(self)@,
                ) + varint_i32(old(self)@) > old(self)@.len() && final(self)@ == old(self)@)
                ||| (frame_ready(old(self)@) && !varint_has_boundary(frame_body(old(self)@))
                    && frame_body(old(self)@).len() < 5 && final(self)@ == frame_rest(old(self)@))
            }),
            r matches Err(PacketReaderError::MalformedPacket(l)) ==> (varint_has_boundary(
                old(self)@,
            ) && l == varint_i32(old(self)@) && l < 0 && final(self)@ == old(self)@),
            (varint_has_boundary(old(self)@) && varint_i32(old(self)@) < 0) ==> (r matches Err(
                PacketReaderError::MalformedPacket(_),
            )),
            r matches Err(PacketReaderError::ReadError(_)) ==> ({
                ||| (!varint_has_boundary(old(self)@) && old(self)@.len() >= 5 && final(self)@
                    == old(self)@)
                ||| (frame_ready(old(self)@) && !varint_has_boundary(frame_body(old(self)@))
                    && frame_body(old(self)@).len() >= 5 && final(self)@ == frame_rest(old(self)@))
            }),
    {
        let ghost start = self@;
        let buffer_len = bm_len(&self.buffer);
        let slice = bm_as_slice(&self.buffer);
        let (packet_len, read_len) = match read_varint(slice) {
            Ok(p) => p,
            Err(VarIntError::Incomplete) => {
                return Ok(None);
            },
            Err(e) => {
                return Err(PacketReaderError::ReadError(ReadError::VarIntError(e)));
            },
        };

        // packet is malformed
        if packet_len < 0 {
            return Err(PacketReaderError::MalformedPacket(packet_len));
        }
        let plen = packet_len as usize;

        // wait for more data to be received
        if buffer_len - read_len < plen {
            return Ok(None);
        }

        // strip the header, then split the declared-length body off
        bm_advance(&mut self.buffer, read_len);
        let mut packet_body = bm_split_to(&mut self.buffer, plen);
        proof {
            assert(bytes_mut_view(packet_body) =~= frame_body(start));
            assert(self@ =~= frame_rest(start));
        }
        let body_slice = bm_as_slice(&packet_body);
        let (packet_id, id_len) = match read_varint(body_slice) {
            Ok(p) => p,
            Err(VarIntError::Incomplete) => {
                return Ok(None);
            },
            Err(e) => {
                return Err(PacketReaderError::ReadError(ReadError::VarIntError(e)));
            },
        };
        bm_advance(&mut packet_body, id_len);
        proof {
            let body = frame_body(start);
            assert(bytes_mut_view(packet_body) =~= body.skip(varint_len(body)));
        }
        Ok(Some((VarInt(packet_id), packet_body)))
    }
}

/// A cursor over a borrowed buffer that reads typed values in sequence and
/// tracks how many bytes they consumed.
pub struct BufferReader<'a> {
    buffer: &'a [u8],
    offset: usize,
}

impl<'a> BufferReader<'a> {
    /// The bytes not yet consumed.
    pub closed spec fn remaining(&self) -> Seq<u8> {
        self.buffer@.skip(self.offset as int)
    }

    /// How many bytes have been consumed so far.
    pub closed spec fn spec_consumed(&self) -> int {
        self.offset as int
    }

    /// The whole buffer the reader walks.
    pub closed spec fn full(&self) -> Seq<u8> {
        self.buffer@
    }

    /// The cursor lies within the buffer.
    pub closed spec fn wf(&self) -> bool {
        self.offset <= self.buffer@.len()
    }

    pub fn new(buffer: &'a [u8]) -> (r: Self)
        ensures
            r.wf(),
            r.full() == buffer@,
            r.spec_consumed() == 0,
            r.remaining() == buffer@,
    {
        let r = BufferReader { buffer, offset: 0 };
        proof {
            assert(buffer@.skip(0) =~= buffer@);
        }
        r
    }

    /// Reads one value of type `T` from the cursor, advancing it by the
    /// bytes the value occupied; a failed read leaves the cursor alone.
    pub fn read<T: crate::protocol::Readable>(&mut self) -> (r: Result<T, ReadError>)
        requires
            old(self).wf(),
        ensures
            final(self).wf(),
            final(self).full() == old(self).full(),
            final(self).spec_consumed() <= final(self).full().len(),
            r is Ok <==> T::decodable(old(self).remaining()),
            r matches Ok(v) ==> ({
                &&& T::decodes_to(old(self).remaining(), &v)
                &&& final(self).spec_consumed() == old(self).spec_consumed() + T::decoded_len(
                    old(self).remaining(),
                )
                &&& final(self).remaining() == old(self).remaining().skip(
                    T::decoded_len(old(self).remaining()),
                )
            }),
            r is Err ==> *final(self) == *old(self),
            r matches Err(e) ==> (crate::protocol::is_incomplete_error(e)
                <==> T::decode_incomplete(old(self).remaining())),
    {
        let tail = vstd::slice::slice_subrange(self.buffer, self.offset, self.buffer.len());
        match T::read(tail) {
            Ok((value, consumed)) => {
                let ghost old_offset = self.offset as int;
                self.offset = self.offset + consumed;
                proof {
                    assert(self.buffer@.skip(self.offset as int) =~= tail@.skip(consumed as int));
                }
                Ok(value)
            },
            Err(e) => Err(e),
        }
    }

    /// How many bytes the reads so far consumed.
    pub fn consumed(&self) -> (r: usize)
        ensures
            r as int == self.spec_consumed(),
    {
        self.offset
    }
}

} // verus!
