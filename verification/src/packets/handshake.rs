//! The handshake packet: the first packet of every connection, whose intent
//! field decides whether the connection heads for status or login.

use vstd::prelude::*;

use crate::network::BufferReader;
use crate::protocol::{ProtocolState, ReadError, Readable, WriteError, Writeable};
use crate::registry::{spec_key, RegistryError};
use crate::varint::{
    read_varint, varint_encoding, varint_has_boundary, varint_i32, varint_len, VarInt,
};

use crate::packets::{Packet, PacketDecoder, PacketsRegistry};

verus! {

/// Registers this state's serverbound packets.
pub fn setup_registry(registry: &mut PacketsRegistry)
    requires
        !old(registry)@.contains_key(spec_key(ProtocolState::Handshake, VarInt(0x00))),
    ensures
        final(registry)@ == old(registry)@.insert(
            spec_key(ProtocolState::Handshake, VarInt(0x00)),
            PacketDecoder::Handshake,
        ),
{
    let r: Result<(), RegistryError> = registry.register(
        ProtocolState::Handshake,
        VarInt(0x00),
        PacketDecoder::Handshake,
    );
    r.unwrap();
}

/// What the client connects for; travels as a VarInt discriminant.
#[derive(Debug, Clone, Copy, PartialEq, Eq, Structural)]
pub enum HandshakeIntent {
    Status,
    Login,
    Transfer,
}

impl HandshakeIntent {
    /// The wire discriminant of each intent.
    pub open spec fn spec_id(&self) -> i32 {
        match self {
            HandshakeIntent::Status => 1,
            HandshakeIntent::Login => 2,
            HandshakeIntent::Transfer => 3,
        }
    }
}

impl Readable for HandshakeIntent {
    open spec fn decodable(buf: Seq<u8>) -> bool {
        varint_has_boundary(buf) && (varint_i32(buf) == 1 || varint_i32(buf) == 2 || varint_i32(
            buf,
        ) == 3)
    }

    open spec fn decoded_len(buf: Seq<u8>) -> int {
        varint_len(buf)
    }

    open spec fn decodes_to(buf: Seq<u8>, v: &Self) -> bool {
        Self::decodable(buf) && v.spec_id() == varint_i32(buf)
    }

    /// An unrecognized discriminant is protocol corruption, reported as
    /// `UnknownVariant`.
    open spec fn decode_incomplete(buf: Seq<u8>) -> bool {
        !varint_has_boundary(buf) && buf.len() < 5
    }

    fn read(buffer: &[u8]) -> (r: Result<(Self, usize), ReadError>) {
        let (value, n) = match read_varint(buffer) {
            Ok(p) => p,
            Err(e) => {
                return Err(ReadError::VarIntError(e));
            },
        };
        match value {
            1 => Ok((HandshakeIntent::Status, n)),
            2 => Ok((HandshakeIntent::Login, n)),
            3 => Ok((HandshakeIntent::Transfer, n)),
            _ => Err(ReadError::UnknownVariant(value)),
        }
    }
}

impl Writeable for HandshakeIntent {
    open spec fn encoding(&self) -> Seq<u8> {
        varint_encoding(self.spec_id() as u32)
    }

    open spec fn encodable(&self) -> bool {
        true
    }

    fn write(&self) -> (r: Result<Vec<u8>, WriteError>) {
        let id: i32 = match self {
            HandshakeIntent::Status => 1,
            HandshakeIntent::Login => 2,
            HandshakeIntent::Transfer => 3,
        };
        VarInt(id).write()
    }
}

/// The handshake: protocol version, the address and port the client dialed,
/// and the intent that picks the next state.
#[derive(Debug, Clone)]
pub struct ServerboundHandshakePacket {
    pub protocol_version: VarInt,
    pub server_address: String,
    pub server_port: u16,
    pub intent: HandshakeIntent,
}

impl ServerboundHandshakePacket {
    pub const PACKET_ID: i32 = 0x00;
}

impl Packet for ServerboundHandshakePacket {
    open spec fn spec_id(&self) -> i32 {
        0x00
    }

    fn id(&self) -> (r: VarInt) {
        VarInt(0x00)
    }
}

impl Readable for ServerboundHandshakePacket {
    open spec fn decodable(buf: Seq<u8>) -> bool {
        &&& <VarInt as Readable>::decodable(buf)
        &&& ({
            let b1 = buf.skip(<VarInt as Readable>::decoded_len(buf));
            &&& <String as Readable>::decodable(b1)
            &&& ({
                let b2 = b1.skip(<String as Readable>::decoded_len(b1));
                &&& <u16 as Readable>::decodable(b2)
                &&& ({
                    let b3 = b2.skip(<u16 as Readable>::decoded_len(b2));
                    <HandshakeIntent as Readable>::decodable(b3)
                })
            })
        })
    }

    open spec fn decoded_len(buf: Seq<u8>) -> int {
        let b1 = buf.skip(<VarInt as Readable>::decoded_len(buf));
        let b2 = b1.skip(<String as Readable>::decoded_len(b1));
        let b3 = b2.skip(<u16 as Readable>::decoded_len(b2));
        <VarInt as Readable>::decoded_len(buf) + <String as Readable>::decoded_len(b1) + <
        u16 as Readable>::decoded_len(b2) + <HandshakeIntent as Readable>::decoded_len(b3)
    }

    open spec fn decodes_to(buf: Seq<u8>, v: &Self) -> bool {
        let b1 = buf.skip(<VarInt as Readable>::decoded_len(buf));
        let b2 = b1.skip(<String as Readable>::decoded_len(b1));
        let b3 = b2.skip(<u16 as Readable>::decoded_len(b2));
        &&& <VarInt as Readable>::decodes_to(buf, &v.protocol_version)
        &&& <String as Readable>::decodes_to(b1, &v.server_address)
        &&& <u16 as Readable>::decodes_to(b2, &v.server_port)
        &&& <HandshakeIntent as Readable>::decodes_to(b3, &v.intent)
    }

    open spec fn decode_incomplete(buf: Seq<u8>) -> bool {
        let b1 = buf.skip(<VarInt as Readable>::decoded_len(buf));
        let b2 = b1.skip(<String as Readable>::decoded_len(b1));
        let b3 = b2.skip(<u16 as Readable>::decoded_len(b2));
        if !<VarInt as Readable>::decodable(buf) {
            <VarInt as Readable>::decode_incomplete(buf)
        } else if !<String as Readable>::decodable(b1) {
            <String as Readable>::decode_incomplete(b1)
        } else if !<u16 as Readable>::decodable(b2) {
            <u16 as Readable>::decode_incomplete(b2)
        } else {
            <HandshakeIntent as Readable>::decode_incomplete(b3)
        }
    }

    fn read(buffer: &[u8]) -> (r: Result<(Self, usize), ReadError>) {
        let mut reader = BufferReader::new(buffer);
        let protocol_version: VarInt = match reader.read() {
            Ok(v) => v,
            Err(e) => {
                return Err(e);
            },
        };
        let server_address: String = match reader.read() {
            Ok(v) => v,
            Err(e) => {
                return Err(e);
            },
        };
        let server_port: u16 = match reader.read() {
            Ok(v) => v,
            Err(e) => {
                return Err(e);
            },
        };
        let intent: HandshakeIntent = match reader.read() {
            Ok(v) => v,
            Err(e) => {
                return Err(e);
            },
        };
        Ok((
            ServerboundHandshakePacket { protocol_version, server_address, server_port, intent },
            reader.consumed(),
        ))
    }
}

impl Writeable for ServerboundHandshakePacket {
    open spec fn encoding(&self) -> Seq<u8> {
        self.protocol_version.encoding() + self.server_address.encoding()
            + self.server_port.encoding() + self.intent.encoding()
    }

    open spec fn encodable(&self) -> bool {
        self.server_address.encodable()
    }

    fn write(&self) -> (r: Result<Vec<u8>, WriteError>) {
        let mut out: Vec<u8> = Vec::new();
        let piece = match self.protocol_version.write() {
            Ok(b) => b,
            Err(e) => {
                return Err(e);
            },
        };
        out.extend_from_slice(piece.as_slice());
        let piece = match self.server_address.write() {
            Ok(b) => b,
            Err(e) => {
                return Err(e);
            },
        };
        out.extend_from_slice(piece.as_slice());
        let piece = match self.server_port.write() {
            Ok(b) => b,
            Err(e) => {
                return Err(e);
            },
        };
        out.extend_from_slice(piece.as_slice());
        let piece = match self.intent.write() {
            Ok(b) => b,
            Err(e) => {
                return Err(e);
            },
        };
        out.extend_from_slice(piece.as_slice());
        proof {
            assert(out@ =~= self.encoding());
        }
        Ok(out)
    }
}

} // verus!
