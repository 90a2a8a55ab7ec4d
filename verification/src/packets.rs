//! Packet schemas, one module per protocol state, and the closed union of
//! serverbound packets together with the decoder table entries that the
//! registry maps `(state, id)` keys to.

pub mod configuration;
pub mod handshake;
pub mod login;
pub mod play;
pub mod status;

use vstd::prelude::*;

use crate::protocol::{ReadError, Readable};
use crate::registry::ProtocolRegistry;
use crate::varint::VarInt;

verus! {

/// Set of methods that each packet implements to be treated as a packet.
pub trait Packet {
    /// The packet's numeric id.
    spec fn spec_id(&self) -> i32;

    /// ID of this packet as a `VarInt` value.
    fn id(&self) -> (r: VarInt)
        ensures
            r.0 == self.spec_id(),
    ;
}

/// One entry of the decoder registry: which packet's decoder a
/// `(state, id)` key resolves to.  The union is closed, so dispatch needs no
/// runtime type identity checks.
#[derive(Debug, Clone, Copy, PartialEq, Eq, Structural)]
pub enum PacketDecoder {
    Handshake,
    StatusRequest,
    PingRequest,
    LoginStart,
    LoginAcknowledged,
    ClientInformation,
    PluginMessage,
    AcknowledgeFinish,
    KnownPacks,
    ConfirmTeleportation,
}

/// A decoded serverbound packet.
#[derive(Debug, Clone)]
pub enum ServerboundPacket {
    Handshake(handshake::ServerboundHandshakePacket),
    StatusRequest(status::ServerboundStatusRequestPacket),
    PingRequest(status::ServerboundPingRequestPacket),
    LoginStart(login::ServerboundLoginStartPacket),
    LoginAcknowledged(login::ServerboundLoginAcknowledgedPacket),
    ClientInformation(configuration::ServerboundClientInformationPacket),
    PluginMessage(configuration::ServerboundPluginMessagePacket),
    AcknowledgeFinish(configuration::ServerboundAcknowledgeFinishPacket),
    KnownPacks(configuration::ServerboundKnownPacksPacket),
    ConfirmTeleportation(play::ServerboundConfirmTeleportationPacket),
}

/// The registry that maps `(state, id)` keys to packet decoders.
pub type PacketsRegistry = ProtocolRegistry<PacketDecoder>;

/// The body at the front of `buf` decodes under decoder `d`.
pub open spec fn decoder_ok(d: PacketDecoder, buf: Seq<u8>) -> bool {
    match d {
        PacketDecoder::Handshake => <handshake::ServerboundHandshakePacket as Readable>::decodable(
            buf,
        ),
        PacketDecoder::StatusRequest => <status::ServerboundStatusRequestPacket as Readable>::decodable(
            buf,
        ),
        PacketDecoder::PingRequest => <status::ServerboundPingRequestPacket as Readable>::decodable(
            buf,
        ),
        PacketDecoder::LoginStart => <login::ServerboundLoginStartPacket as Readable>::decodable(
            buf,
        ),
        PacketDecoder::LoginAcknowledged => <
        login::ServerboundLoginAcknowledgedPacket as Readable>::decodable(buf),
        PacketDecoder::ClientInformation => <
        configuration::ServerboundClientInformationPacket as Readable>::decodable(buf),
        PacketDecoder::PluginMessage => <
        configuration::ServerboundPluginMessagePacket as Readable>::decodable(buf),
        PacketDecoder::AcknowledgeFinish => <
        configuration::ServerboundAcknowledgeFinishPacket as Readable>::decodable(buf),
        PacketDecoder::KnownPacks => <
        configuration::ServerboundKnownPacksPacket as Readable>::decodable(buf),
        PacketDecoder::ConfirmTeleportation => <
        play::ServerboundConfirmTeleportationPacket as Readable>::decodable(buf),
    }
}

/// Decoder `d` turns the front of `buf` into packet `p`, consuming `n`
/// bytes.
pub open spec fn decoder_yields(d: PacketDecoder, buf: Seq<u8>, p: ServerboundPacket, n: int) -> bool {
    match d {
        PacketDecoder::Handshake => (p matches ServerboundPacket::Handshake(q)
            && <handshake::ServerboundHandshakePacket as Readable>::decodes_to(buf, &q) && n == <
        handshake::ServerboundHandshakePacket as Readable>::decoded_len(buf)),
        PacketDecoder::StatusRequest => (p matches ServerboundPacket::StatusRequest(q)
            && <status::ServerboundStatusRequestPacket as Readable>::decodes_to(buf, &q) && n == <
        status::ServerboundStatusRequestPacket as Readable>::decoded_len(buf)),
        PacketDecoder::PingRequest => (p matches ServerboundPacket::PingRequest(q)
            && <status::ServerboundPingRequestPacket as Readable>::decodes_to(buf, &q) && n == <
        status::ServerboundPingRequestPacket as Readable>::decoded_len(buf)),
        PacketDecoder::LoginStart => (p matches ServerboundPacket::LoginStart(q)
            && <login::ServerboundLoginStartPacket as Readable>::decodes_to(buf, &q) && n == <
        login::ServerboundLoginStartPacket as Readable>::decoded_len(buf)),
        PacketDecoder::LoginAcknowledged => (p matches ServerboundPacket::LoginAcknowledged(q)
            && <login::ServerboundLoginAcknowledgedPacket as Readable>::decodes_to(buf, &q) && n
            == <login::ServerboundLoginAcknowledgedPacket as Readable>::decoded_len(buf)),
        PacketDecoder::ClientInformation => (p matches ServerboundPacket::ClientInformation(q)
            && <configuration::ServerboundClientInformationPacket as Readable>::decodes_to(buf, &q)
            && n == <configuration::ServerboundClientInformationPacket as Readable>::decoded_len(
            buf,
        )),
        PacketDecoder::PluginMessage => (p matches ServerboundPacket::PluginMessage(q)
            && <configuration::ServerboundPluginMessagePacket as Readable>::decodes_to(buf, &q)
            && n == <configuration::ServerboundPluginMessagePacket as Readable>::decoded_len(buf)),
        PacketDecoder::AcknowledgeFinish => (p matches ServerboundPacket::AcknowledgeFinish(q)
            && <configuration::ServerboundAcknowledgeFinishPacket as Readable>::decodes_to(buf, &q)
            && n == <configuration::ServerboundAcknowledgeFinishPacket as Readable>::decoded_len(
            buf,
        )),
        PacketDecoder::KnownPacks => (p matches ServerboundPacket::KnownPacks(q)
            && <configuration::ServerboundKnownPacksPacket as Readable>::decodes_to(buf, &q) && n
            == <configuration::ServerboundKnownPacksPacket as Readable>::decoded_len(buf)),
        PacketDecoder::ConfirmTeleportation => (p matches ServerboundPacket::ConfirmTeleportation(
            q,
        ) && <play::ServerboundConfirmTeleportationPacket as Readable>::decodes_to(buf, &q) && n
            == <play::ServerboundConfirmTeleportationPacket as Readable>::decoded_len(buf)),
    }
}

/// The byte length of the packet that decoder `d` reads from the front of
/// `buf`.
pub open spec fn decoder_len(d: PacketDecoder, buf: Seq<u8>) -> int {
    match d {
        PacketDecoder::Handshake => <handshake::ServerboundHandshakePacket as Readable>::decoded_len(
            buf,
        ),
        PacketDecoder::StatusRequest => <
        status::ServerboundStatusRequestPacket as Readable>::decoded_len(buf),
        PacketDecoder::PingRequest => <
        status::ServerboundPingRequestPacket as Readable>::decoded_len(buf),
        PacketDecoder::LoginStart => <login::ServerboundLoginStartPacket as Readable>::decoded_len(
            buf,
        ),
        PacketDecoder::LoginAcknowledged => <
        login::ServerboundLoginAcknowledgedPacket as Readable>::decoded_len(buf),
        PacketDecoder::ClientInformation => <
        configuration::ServerboundClientInformationPacket as Readable>::decoded_len(buf),
        PacketDecoder::PluginMessage => <
        configuration::ServerboundPluginMessagePacket as Readable>::decoded_len(buf),
        PacketDecoder::AcknowledgeFinish => <
        configuration::ServerboundAcknowledgeFinishPacket as Readable>::decoded_len(buf),
        PacketDecoder::KnownPacks => <
        configuration::ServerboundKnownPacksPacket as Readable>::decoded_len(buf),
        PacketDecoder::ConfirmTeleportation => <
        play::ServerboundConfirmTeleportationPacket as Readable>::decoded_len(buf),
    }
}

/// The body at the front of `buf` fails to decode under decoder `d` only
/// for want of more bytes, not from a structural violation.
pub open spec fn decoder_incomplete(d: PacketDecoder, buf: Seq<u8>) -> bool {
    match d {
        PacketDecoder::Handshake => <
        handshake::ServerboundHandshakePacket as Readable>::decode_incomplete(buf),
        PacketDecoder::StatusRequest => <
        status::ServerboundStatusRequestPacket as Readable>::decode_incomplete(buf),
        PacketDecoder::PingRequest => <
        status::ServerboundPingRequestPacket as Readable>::decode_incomplete(buf),
        PacketDecoder::LoginStart => <
        login::ServerboundLoginStartPacket as Readable>::decode_incomplete(buf),
        PacketDecoder::LoginAcknowledged => <
        login::ServerboundLoginAcknowledgedPacket as Readable>::decode_incomplete(buf),
        PacketDecoder::ClientInformation => <
        configuration::ServerboundClientInformationPacket as Readable>::decode_incomplete(buf),
        PacketDecoder::PluginMessage => <
        configuration::ServerboundPluginMessagePacket as Readable>::decode_incomplete(buf),
        PacketDecoder::AcknowledgeFinish => <
        configuration::ServerboundAcknowledgeFinishPacket as Readable>::decode_incomplete(buf),
        PacketDecoder::KnownPacks => <
        configuration::ServerboundKnownPacksPacket as Readable>::decode_incomplete(buf),
        PacketDecoder::ConfirmTeleportation => <
        play::ServerboundConfirmTeleportationPacket as Readable>::decode_incomplete(buf),
    }
}

/// Runs the decoder that the registry resolved for a frame on the frame's
/// body, producing the decoded packet and the bytes consumed.
pub fn decode_packet(d: &PacketDecoder, buffer: &[u8]) -> (r: Result<
    (ServerboundPacket, usize),
    ReadError,
>)
    ensures
        r is Ok <==> decoder_ok(*d, buffer@),
        r matches Ok(p) ==> decoder_yields(*d, buffer@, p.0, p.1 as int) && p.1 as int
            == decoder_len(*d, buffer@) && p.1 <= buffer@.len(),
        r matches Err(e) ==> (crate::protocol::is_incomplete_error(e) <==> decoder_incomplete(
            *d,
            buffer@,
        )),
{
    match d {
        PacketDecoder::Handshake => {
            match handshake::ServerboundHandshakePacket::read(buffer) {
                Ok((p, n)) => Ok((ServerboundPacket::Handshake(p), n)),
                Err(e) => Err(e),
            }
        },
        PacketDecoder::StatusRequest => {
            match status::ServerboundStatusRequestPacket::read(buffer) {
                Ok((p, n)) => Ok((ServerboundPacket::StatusRequest(p), n)),
                Err(e) => Err(e),
            }
        },
        PacketDecoder::PingRequest => {
            match status::ServerboundPingRequestPacket::read(buffer) {
                Ok((p, n)) => Ok((ServerboundPacket::PingRequest(p), n)),
                Err(e) => Err(e),
            }
        },
        PacketDecoder::LoginStart => {
            match login::ServerboundLoginStartPacket::read(buffer) {
                Ok((p, n)) => Ok((ServerboundPacket::LoginStart(p), n)),
                Err(e) => Err(e),
            }
        },
        PacketDecoder::LoginAcknowledged => {
            match login::ServerboundLoginAcknowledgedPacket::read(buffer) {
                Ok((p, n)) => Ok((ServerboundPacket::LoginAcknowledged(p), n)),
                Err(e) => Err(e),
            }
        },
        PacketDecoder::ClientInformation => {
            match configuration::ServerboundClientInformationPacket::read(buffer) {
                Ok((p, n)) => Ok((ServerboundPacket::ClientInformation(p), n)),
                Err(e) => Err(e),
            }
        },
        PacketDecoder::PluginMessage => {
            match configuration::ServerboundPluginMessagePacket::read(buffer) {
                Ok((p, n)) => Ok((ServerboundPacket::PluginMessage(p), n)),
                Err(e) => Err(e),
            }
        },
        PacketDecoder::AcknowledgeFinish => {
            match configuration::ServerboundAcknowledgeFinishPacket::read(buffer) {
                Ok((p, n)) => Ok((ServerboundPacket::AcknowledgeFinish(p), n)),
                Err(e) => Err(e),
            }
        },
        PacketDecoder::KnownPacks => {
            match configuration::ServerboundKnownPacksPacket::read(buffer) {
                Ok((p, n)) => Ok((ServerboundPacket::KnownPacks(p), n)),
                Err(e) => Err(e),
            }
        },
        PacketDecoder::ConfirmTeleportation => {
            match play::ServerboundConfirmTeleportationPacket::read(buffer) {
                Ok((p, n)) => Ok((ServerboundPacket::ConfirmTeleportation(p), n)),
                Err(e) => Err(e),
            }
        },
    }
}

} // verus!
