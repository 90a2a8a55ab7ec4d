//! Status packets: the server-list ping exchange.

use vstd::prelude::*;

use crate::network::BufferReader;
use crate::protocol::{
    string_encodable, string_encoding, ProtocolState, ReadError, Readable, WriteError, Writeable,
};
use crate::registry::{lemma_spec_key_injective, spec_key, RegistryError};
use crate::server_list_ping::ServerListPing;
use crate::varint::VarInt;

use crate::packets::{Packet, PacketDecoder, PacketsRegistry};

verus! {

/// Registers this state's serverbound packets.
pub fn setup_registry(registry: &mut PacketsRegistry)
    requires
        !old(registry)@.contains_key(spec_key(ProtocolState::Status, VarInt(0x00))),
        !old(registry)@.contains_key(spec_key(ProtocolState::Status, VarInt(0x01))),
    ensures
        final(registry)@ == old(registry)@.insert(
            spec_key(ProtocolState::Status, VarInt(0x00)),
            PacketDecoder::StatusRequest,
        ).insert(spec_key(ProtocolState::Status, VarInt(0x01)), PacketDecoder::PingRequest),
{
    proof {
        if spec_key(ProtocolState::Status, VarInt(0x00)) == spec_key(
            ProtocolState::Status,
            VarInt(0x01),
        ) {
            lemma_spec_key_injective(
                ProtocolState::Status,
                VarInt(0x00),
                ProtocolState::Status,
                VarInt(0x01),
            );
        }
    }
    let r: Result<(), RegistryError> = registry.register(
        ProtocolState::Status,
        VarInt(0x00),
        PacketDecoder::StatusRequest,
    );
    r.unwrap();
    let r: Result<(), RegistryError> = registry.register(
        ProtocolState::Status,
        VarInt(0x01),
        PacketDecoder::PingRequest,
    );
    r.unwrap();
}

/// The client asks for the server list entry.  The packet has no body.
#[derive(Debug, Clone)]
pub struct ServerboundStatusRequestPacket {}

impl ServerboundStatusRequestPacket {
    pub const PACKET_ID: i32 = 0x00;
}

impl Packet for ServerboundStatusRequestPacket {
    open spec fn spec_id(&self) -> i32 {
        0x00
    }

    fn id(&self) -> (r: VarInt) {
        VarInt(0x00)
    }
}

impl Readable for ServerboundStatusRequestPacket {
    open spec fn decodable(buf: Seq<u8>) -> bool {
        true
    }

    open spec fn decoded_len(buf: Seq<u8>) -> int {
        0
    }

    open spec fn decodes_to(buf: Seq<u8>, v: &Self) -> bool {
        true
    }

    open spec fn decode_incomplete(buf: Seq<u8>) -> bool {
        false
    }

    fn read(buffer: &[u8]) -> (r: Result<(Self, usize), ReadError>) {
        Ok((ServerboundStatusRequestPacket {}, 0))
    }
}

/// The client sends a timestamp to be echoed back.
#[derive(Debug, Clone)]
pub struct ServerboundPingRequestPacket {
    pub value: i64,
}

impl ServerboundPingRequestPacket {
    pub const PACKET_ID: i32 = 0x01;
}

impl Packet for ServerboundPingRequestPacket {
    open spec fn spec_id(&self) -> i32 {
        0x01
    }

    fn id(&self) -> (r: VarInt) {
        VarInt(0x01)
    }
}

impl Readable for ServerboundPingRequestPacket {
    open spec fn decodable(buf: Seq<u8>) -> bool {
        <i64 as Readable>::decodable(buf)
    }

    open spec fn decoded_len(buf: Seq<u8>) -> int {
        <i64 as Readable>::decoded_len(buf)
    }

    open spec fn decodes_to(buf: Seq<u8>, v: &Self) -> bool {
        <i64 as Readable>::decodes_to(buf, &v.value)
    }

    open spec fn decode_incomplete(buf: Seq<u8>) -> bool {
        <i64 as Readable>::decode_incomplete(buf)
    }

    fn read(buffer: &[u8]) -> (r: Result<(Self, usize), ReadError>) {
        let mut reader = BufferReader::new(buffer);
        let value: i64 = match reader.read() {
            Ok(v) => v,
            Err(e) => {
                return Err(e);
            },
        };
        Ok((ServerboundPingRequestPacket { value }, reader.consumed()))
    }
}

/// The server list entry, sent back as one JSON document.  Serializing the
/// document is outside this crate's scope; `write_status_response_json`
/// frames an already-serialized document.
#[derive(Debug)]
pub struct ClientboundStatusResponsePacket {
    pub response: ServerListPing,
}

impl ClientboundStatusResponsePacket {
    pub const PACKET_ID: i32 = 0x00;
}

impl Packet for ClientboundStatusResponsePacket {
    open spec fn spec_id(&self) -> i32 {
        0x00
    }

    fn id(&self) -> (r: VarInt) {
        VarInt(0x00)
    }
}

/// Frames a serialized server list document as the status response body: one
/// length-prefixed string.
pub fn write_status_response_json(json: &str) -> (r: Result<Vec<u8>, WriteError>)
    ensures
        r is Ok <==> string_encodable(json@),
        r matches Ok(b) ==> b@ == string_encoding(json@),
{
    crate::protocol::write_string(json)
}

/// The server echoes the client's ping timestamp.
#[derive(Debug, Clone)]
pub struct ClientboundPingResponsePacket {
    pub value: i64,
}

impl ClientboundPingResponsePacket {
    pub const PACKET_ID: i32 = 0x01;
}

impl Packet for ClientboundPingResponsePacket {
    open spec fn spec_id(&self) -> i32 {
        0x01
    }

    fn id(&self) -> (r: VarInt) {
        VarInt(0x01)
    }
}

impl Writeable for ClientboundPingResponsePacket {
    open spec fn encoding(&self) -> Seq<u8> {
        self.value.encoding()
    }

    open spec fn encodable(&self) -> bool {
        true
    }

    fn write(&self) -> (r: Result<Vec<u8>, WriteError>) {
        self.value.write()
    }
}

} // verus!
