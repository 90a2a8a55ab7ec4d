//! Login packets: the client names itself and the server answers with the
//! accepted game profile.

use vstd::prelude::*;

use crate::network::BufferReader;
use crate::protocol::{
    PrefixedArray, ProtocolState, ReadError, Readable, WriteError, Writeable,
};
use crate::registry::{lemma_spec_key_injective, spec_key, RegistryError};
use crate::varint::VarInt;

use crate::packets::{Packet, PacketDecoder, PacketsRegistry};

verus! {

/// Registers this state's serverbound packets.
pub fn setup_registry(registry: &mut PacketsRegistry)
    requires
        !old(registry)@.contains_key(spec_key(ProtocolState::Login, VarInt(0x00))),
        !old(registry)@.contains_key(spec_key(ProtocolState::Login, VarInt(0x03))),
    ensures
        final(registry)@ == old(registry)@.insert(
            spec_key(ProtocolState::Login, VarInt(0x00)),
            PacketDecoder::LoginStart,
        ).insert(spec_key(ProtocolState::Login, VarInt(0x03)), PacketDecoder::LoginAcknowledged),
{
    proof {
        if spec_key(ProtocolState::Login, VarInt(0x00)) == spec_key(
            ProtocolState::Login,
            VarInt(0x03),
        ) {
            lemma_spec_key_injective(
                ProtocolState::Login,
                VarInt(0x00),
                ProtocolState::Login,
                VarInt(0x03),
            );
        }
    }
    let r: Result<(), RegistryError> = registry.register(
        ProtocolState::Login,
        VarInt(0x00),
        PacketDecoder::LoginStart,
    );
    r.unwrap();
    let r: Result<(), RegistryError> = registry.register(
        ProtocolState::Login,
        VarInt(0x03),
        PacketDecoder::LoginAcknowledged,
    );
    r.unwrap();
}

/// A single player game property from a game profile sent in the login
/// success packet.
#[derive(Debug, Clone)]
pub struct Property {
    /// Name of this property. Must be unique.
    pub name: String,
    /// The value of this property.
    pub value: String,
}

impl Readable for Property {
    open spec fn decodable(buf: Seq<u8>) -> bool {
        &&& <String as Readable>::decodable(buf)
        &&& <String as Readable>::decodable(buf.skip(<String as Readable>::decoded_len(buf)))
    }

    open spec fn decoded_len(buf: Seq<u8>) -> int {
        let b1 = buf.skip(<String as Readable>::decoded_len(buf));
        <String as Readable>::decoded_len(buf) + <String as Readable>::decoded_len(b1)
    }

    open spec fn decodes_to(buf: Seq<u8>, v: &Self) -> bool {
        let b1 = buf.skip(<String as Readable>::decoded_len(buf));
        &&& <String as Readable>::decodes_to(buf, &v.name)
        &&& <String as Readable>::decodes_to(b1, &v.value)
    }

    open spec fn decode_incomplete(buf: Seq<u8>) -> bool {
        let b1 = buf.skip(<String as Readable>::decoded_len(buf));
        if !<String as Readable>::decodable(buf) {
            <String as Readable>::decode_incomplete(buf)
        } else {
            <String as Readable>::decode_incomplete(b1)
        }
    }

    fn read(buffer: &[u8]) -> (r: Result<(Self, usize), ReadError>) {
        let mut reader = BufferReader::new(buffer);
        let name: String = match reader.read() {
            Ok(v) => v,
            Err(e) => {
                return Err(e);
            },
        };
        let value: String = match reader.read() {
            Ok(v) => v,
            Err(e) => {
                return Err(e);
            },
        };
        Ok((Property { name, value }, reader.consumed()))
    }
}

impl Writeable for Property {
    open spec fn encoding(&self) -> Seq<u8> {
        self.name.encoding() + self.value.encoding()
    }

    open spec fn encodable(&self) -> bool {
        self.name.encodable() && self.value.encodable()
    }

    fn write(&self) -> (r: Result<Vec<u8>, WriteError>) {
        let mut out: Vec<u8> = Vec::new();
        let piece = match self.name.write() {
            Ok(b) => b,
            Err(e) => {
                return Err(e);
            },
        };
        out.extend_from_slice(piece.as_slice());
        let piece = match self.value.write() {
            Ok(b) => b,
            Err(e) => {
                return Err(e);
            },
        };
        out.extend_from_slice(piece.as_slice());
        proof {
            assert(out@ =~= self.encoding());
        }
        Ok(out)
    }
}

/// The client starts logging in with its name and UUID (16 raw bytes,
/// carried as the 128-bit pattern they spell).
#[derive(Debug, Clone)]
pub struct ServerboundLoginStartPacket {
    pub name: String,
    pub id: u128,
}

impl ServerboundLoginStartPacket {
    pub const PACKET_ID: i32 = 0x00;
}

impl Packet for ServerboundLoginStartPacket {
    open spec fn spec_id(&self) -> i32 {
        0x00
    }

    fn id(&self) -> (r: VarInt) {
        VarInt(0x00)
    }
}

impl Readable for ServerboundLoginStartPacket {
    open spec fn decodable(buf: Seq<u8>) -> bool {
        &&& <String as Readable>::decodable(buf)
        &&& <u128 as Readable>::decodable(buf.skip(<String as Readable>::decoded_len(buf)))
    }

    open spec fn decoded_len(buf: Seq<u8>) -> int {
        let b1 = buf.skip(<String as Readable>::decoded_len(buf));
        <String as Readable>::decoded_len(buf) + <u128 as Readable>::decoded_len(b1)
    }

    open spec fn decodes_to(buf: Seq<u8>, v: &Self) -> bool {
        let b1 = buf.skip(<String as Readable>::decoded_len(buf));
        &&& <String as Readable>::decodes_to(buf, &v.name)
        &&& <u128 as Readable>::decodes_to(b1, &v.id)
    }

    open spec fn decode_incomplete(buf: Seq<u8>) -> bool {
        let b1 = buf.skip(<String as Readable>::decoded_len(buf));
        if !<String as Readable>::decodable(buf) {
            <String as Readable>::decode_incomplete(buf)
        } else {
            <u128 as Readable>::decode_incomplete(b1)
        }
    }

    fn read(buffer: &[u8]) -> (r: Result<(Self, usize), ReadError>) {
        let mut reader = BufferReader::new(buffer);
        let name: String = match reader.read() {
            Ok(v) => v,
            Err(e) => {
                return Err(e);
            },
        };
        let id: u128 = match reader.read() {
            Ok(v) => v,
            Err(e) => {
                return Err(e);
            },
        };
        Ok((ServerboundLoginStartPacket { name, id }, reader.consumed()))
    }
}

/// The client acknowledges a successful login; the connection moves on to
/// configuration.  The packet has no body.
#[derive(Debug, Clone)]
pub struct ServerboundLoginAcknowledgedPacket {}

impl ServerboundLoginAcknowledgedPacket {
    pub const PACKET_ID: i32 = 0x03;
}

impl Packet for ServerboundLoginAcknowledgedPacket {
    open spec fn spec_id(&self) -> i32 {
        0x03
    }

    fn id(&self) -> (r: VarInt) {
        VarInt(0x03)
    }
}

impl Readable for ServerboundLoginAcknowledgedPacket {
    open spec fn decodable(buf: Seq<u8>) -> bool {
        true
    }

    open spec fn decoded_len(buf: Seq<u8>) -> int {
        0
    }

    open spec fn decodes_to(buf: Seq<u8>, v: &Self) -> bool {
        true
    }

    open spec fn decode_incomplete(buf: Seq<u8>) -> bool {
        false
    }

    fn read(buffer: &[u8]) -> (r: Result<(Self, usize), ReadError>) {
        Ok((ServerboundLoginAcknowledgedPacket {}, 0))
    }
}

/// The server accepts the login, echoing the profile.
#[derive(Debug, Clone)]
pub struct ClientboundLoginSuccessPacket {
    pub id: u128,
    pub name: String,
    pub properties: PrefixedArray<Property>,
}

impl ClientboundLoginSuccessPacket {
    pub const PACKET_ID: i32 = 0x02;
}

impl Packet for ClientboundLoginSuccessPacket {
    open spec fn spec_id(&self) -> i32 {
        0x02
    }

    fn id(&self) -> (r: VarInt) {
        VarInt(0x02)
    }
}

impl Writeable for ClientboundLoginSuccessPacket {
    open spec fn encoding(&self) -> Seq<u8> {
        self.id.encoding() + self.name.encoding() + self.properties.encoding()
    }

    open spec fn encodable(&self) -> bool {
        self.name.encodable() && self.properties.encodable()
    }

    fn write(&self) -> (r: Result<Vec<u8>, WriteError>) {
        let mut out: Vec<u8> = Vec::new();
        let piece = match self.id.write() {
            Ok(b) => b,
            Err(e) => {
                return Err(e);
            },
        };
        out.extend_from_slice(piece.as_slice());
        let piece = match self.name.write() {
            Ok(b) => b,
            Err(e) => {
                return Err(e);
            },
        };
        out.extend_from_slice(piece.as_slice());
        let piece = match self.properties.write() {
            Ok(b) => b,
            Err(e) => {
                return Err(e);
            },
        };
        out.extend_from_slice(piece.as_slice());
        proof {
            assert(out@ =~= self.encoding());
        }
        Ok(out)
    }
}

} // verus!
