//! Configuration packets: the client and server agree on settings and data
//! packs before play begins.

use vstd::prelude::*;

use crate::identifier::Identifier;
use crate::network::BufferReader;
use crate::protocol::{
    PrefixedArray, ProtocolState, ReadError, Readable, WriteError, Writeable,
};
use crate::registry::{lemma_spec_key_injective, spec_key, RegistryError};
use crate::varint::{read_varint, varint_encoding, varint_has_boundary, varint_i32, varint_len,
    VarInt};

use crate::packets::{Packet, PacketDecoder, PacketsRegistry};

verus! {

/// Registers this state's serverbound packets.
pub fn setup_registry(registry: &mut PacketsRegistry)
    requires
        !old(registry)@.contains_key(spec_key(ProtocolState::Configuration, VarInt(0x00))),
        !old(registry)@.contains_key(spec_key(ProtocolState::Configuration, VarInt(0x02))),
        !old(registry)@.contains_key(spec_key(ProtocolState::Configuration, VarInt(0x03))),
        !old(registry)@.contains_key(spec_key(ProtocolState::Configuration, VarInt(0x07))),
    ensures
        final(registry)@ == old(registry)@.insert(
            spec_key(ProtocolState::Configuration, VarInt(0x00)),
            PacketDecoder::ClientInformation,
        ).insert(
            spec_key(ProtocolState::Configuration, VarInt(0x02)),
            PacketDecoder::PluginMessage,
        ).insert(
            spec_key(ProtocolState::Configuration, VarInt(0x03)),
            PacketDecoder::AcknowledgeFinish,
        ).insert(spec_key(ProtocolState::Configuration, VarInt(0x07)), PacketDecoder::KnownPacks),
{
    proof {
        assert forall|a: i32, b: i32|
            a != b implies spec_key(ProtocolState::Configuration, VarInt(a)) != spec_key(
            ProtocolState::Configuration,
            VarInt(b),
        ) by {
            if spec_key(ProtocolState::Configuration, VarInt(a)) == spec_key(
                ProtocolState::Configuration,
                VarInt(b),
            ) {
                lemma_spec_key_injective(
                    ProtocolState::Configuration,
                    VarInt(a),
                    ProtocolState::Configuration,
                    VarInt(b),
                );
            }
        }
    }
    let r: Result<(), RegistryError> = registry.register(
        ProtocolState::Configuration,
        VarInt(0x00),
        PacketDecoder::ClientInformation,
    );
    r.unwrap();
    let r: Result<(), RegistryError> = registry.register(
        ProtocolState::Configuration,
        VarInt(0x02),
        PacketDecoder::PluginMessage,
    );
    r.unwrap();
    let r: Result<(), RegistryError> = registry.register(
        ProtocolState::Configuration,
        VarInt(0x03),
        PacketDecoder::AcknowledgeFinish,
    );
    r.unwrap();
    let r: Result<(), RegistryError> = registry.register(
        ProtocolState::Configuration,
        VarInt(0x07),
        PacketDecoder::KnownPacks,
    );
    r.unwrap();
}

/// A data pack the client or server knows, named by namespace, id and
/// version.
#[derive(Debug, Clone)]
pub struct KnownPack {
    pub namespace: Identifier,
    pub id: String,
    pub version: String,
}

impl Readable for KnownPack {
    open spec fn decodable(buf: Seq<u8>) -> bool {
        &&& <Identifier as Readable>::decodable(buf)
        &&& ({
            let b1 = buf.skip(<Identifier as Readable>::decoded_len(buf));
            &&& <String as Readable>::decodable(b1)
            &&& <String as Readable>::decodable(b1.skip(<String as Readable>::decoded_len(b1)))
        })
    }

    open spec fn decoded_len(buf: Seq<u8>) -> int {
        let b1 = buf.skip(<Identifier as Readable>::decoded_len(buf));
        let b2 = b1.skip(<String as Readable>::decoded_len(b1));
        <Identifier as Readable>::decoded_len(buf) + <String as Readable>::decoded_len(b1) + <
        String as Readable>::decoded_len(b2)
    }

    open spec fn decodes_to(buf: Seq<u8>, v: &Self) -> bool {
        let b1 = buf.skip(<Identifier as Readable>::decoded_len(buf));
        let b2 = b1.skip(<String as Readable>::decoded_len(b1));
        &&& <Identifier as Readable>::decodes_to(buf, &v.namespace)
        &&& <String as Readable>::decodes_to(b1, &v.id)
        &&& <String as Readable>::decodes_to(b2, &v.version)
    }

    open spec fn decode_incomplete(buf: Seq<u8>) -> bool {
        let b1 = buf.skip(<Identifier as Readable>::decoded_len(buf));
        let b2 = b1.skip(<String as Readable>::decoded_len(b1));
        if !<Identifier as Readable>::decodable(buf) {
            <Identifier as Readable>::decode_incomplete(buf)
        } else if !<String as Readable>::decodable(b1) {
            <String as Readable>::decode_incomplete(b1)
        } else {
            <String as Readable>::decode_incomplete(b2)
        }
    }

    fn read(buffer: &[u8]) -> (r: Result<(Self, usize), ReadError>) {
        let mut reader = BufferReader::new(buffer);
        let namespace: Identifier = match reader.read() {
            Ok(v) => v,
            Err(e) => {
                return Err(e);
            },
        };
        let id: String = match reader.read() {
            Ok(v) => v,
            Err(e) => {
                return Err(e);
            },
        };
        let version: String = match reader.read() {
            Ok(v) => v,
            Err(e) => {
                return Err(e);
            },
        };
        Ok((KnownPack { namespace, id, version }, reader.consumed()))
    }
}

impl Writeable for KnownPack {
    open spec fn encoding(&self) -> Seq<u8> {
        self.namespace.encoding() + self.id.encoding() + self.version.encoding()
    }

    open spec fn encodable(&self) -> bool {
        self.namespace.encodable() && self.id.encodable() && self.version.encodable()
    }

    fn write(&self) -> (r: Result<Vec<u8>, WriteError>) {
        let mut out: Vec<u8> = Vec::new();
        let piece = match self.namespace.write() {
            Ok(b) => b,
            Err(e) => {
                return Err(e);
            },
        };
        out.extend_from_slice(piece.as_slice());
        let piece = match self.id.write() {
            Ok(b) => b,
            Err(e) => {
                return Err(e);
            },
        };
        out.extend_from_slice(piece.as_slice());
        let piece = match self.version.write() {
            Ok(b) => b,
            Err(e) => {
                return Err(e);
            },
        };
        out.extend_from_slice(piece.as_slice());
        proof {
            assert(out@ =~= self.encoding());
        }
        Ok(out)
    }
}

/// How much chat the client wants to see.
#[derive(Debug, Clone, Copy, PartialEq, Eq, Structural)]
pub enum ClientInformationChatMode {
    Enabled,
    CommandsOnly,
    Hidden,
}

impl ClientInformationChatMode {
    pub open spec fn spec_id(&self) -> i32 {
        match self {
            ClientInformationChatMode::Enabled => 0,
            ClientInformationChatMode::CommandsOnly => 1,
            ClientInformationChatMode::Hidden => 2,
        }
    }
}

impl Readable for ClientInformationChatMode {
    open spec fn decodable(buf: Seq<u8>) -> bool {
        varint_has_boundary(buf) && 0 <= varint_i32(buf) <= 2
    }

    open spec fn decoded_len(buf: Seq<u8>) -> int {
        varint_len(buf)
    }

    open spec fn decodes_to(buf: Seq<u8>, v: &Self) -> bool {
        Self::decodable(buf) && v.spec_id() == varint_i32(buf)
    }

    open spec fn decode_incomplete(buf: Seq<u8>) -> bool {
        !varint_has_boundary(buf) && buf.len() < 5
    }

    fn read(buffer: &[u8]) -> (r: Result<(Self, usize), ReadError>) {
        let (value, n) = match read_varint(buffer) {
            Ok(p) => p,
            Err(e) => {
                return Err(ReadError::VarIntError(e));
            },
        };
        match value {
            0 => Ok((ClientInformationChatMode::Enabled, n)),
            1 => Ok((ClientInformationChatMode::CommandsOnly, n)),
            2 => Ok((ClientInformationChatMode::Hidden, n)),
            _ => Err(ReadError::UnknownVariant(value)),
        }
    }
}

impl Writeable for ClientInformationChatMode {
    open spec fn encoding(&self) -> Seq<u8> {
        varint_encoding(self.spec_id() as u32)
    }

    open spec fn encodable(&self) -> bool {
        true
    }

    fn write(&self) -> (r: Result<Vec<u8>, WriteError>) {
        let id: i32 = match self {
            ClientInformationChatMode::Enabled => 0,
            ClientInformationChatMode::CommandsOnly => 1,
            ClientInformationChatMode::Hidden => 2,
        };
        VarInt(id).write()
    }
}

/// Which hand the client's avatar leads with.
#[derive(Debug, Clone, Copy, PartialEq, Eq, Structural)]
pub enum ClientInformationMainHand {
    Left,
    Right,
}

impl ClientInformationMainHand {
    pub open spec fn spec_id(&self) -> i32 {
        match self {
            ClientInformationMainHand::Left => 0,
            ClientInformationMainHand::Right => 1,
        }
    }
}

impl Readable for ClientInformationMainHand {
    open spec fn decodable(buf: Seq<u8>) -> bool {
        varint_has_boundary(buf) && 0 <= varint_i32(buf) <= 1
    }

    open spec fn decoded_len(buf: Seq<u8>) -> int {
        varint_len(buf)
    }

    open spec fn decodes_to(buf: Seq<u8>, v: &Self) -> bool {
        Self::decodable(buf) && v.spec_id() == varint_i32(buf)
    }

    open spec fn decode_incomplete(buf: Seq<u8>) -> bool {
        !varint_has_boundary(buf) && buf.len() < 5
    }

    fn read(buffer: &[u8]) -> (r: Result<(Self, usize), ReadError>) {
        let (value, n) = match read_varint(buffer) {
            Ok(p) => p,
            Err(e) => {
                return Err(ReadError::VarIntError(e));
            },
        };
        match value {
            0 => Ok((ClientInformationMainHand::Left, n)),
            1 => Ok((ClientInformationMainHand::Right, n)),
            _ => Err(ReadError::UnknownVariant(value)),
        }
    }
}

impl Writeable for ClientInformationMainHand {
    open spec fn encoding(&self) -> Seq<u8> {
        varint_encoding(self.spec_id() as u32)
    }

    open spec fn encodable(&self) -> bool {
        true
    }

    fn write(&self) -> (r: Result<Vec<u8>, WriteError>) {
        let id: i32 = match self {
            ClientInformationMainHand::Left => 0,
            ClientInformationMainHand::Right => 1,
        };
        VarInt(id).write()
    }
}

/// How many particles the client wants rendered.
#[derive(Debug, Clone, Copy, PartialEq, Eq, Structural)]
pub enum ClientInformationParticleStatus {
    All,
    Decreased,
    Minimal,
}

impl ClientInformationParticleStatus {
    pub open spec fn spec_id(&self) -> i32 {
        match self {
            ClientInformationParticleStatus::All => 0,
            ClientInformationParticleStatus::Decreased => 1,
            ClientInformationParticleStatus::Minimal => 2,
        }
    }
}

impl Readable for ClientInformationParticleStatus {
    open spec fn decodable(buf: Seq<u8>) -> bool {
        varint_has_boundary(buf) && 0 <= varint_i32(buf) <= 2
    }

    open spec fn decoded_len(buf: Seq<u8>) -> int {
        varint_len(buf)
    }

    open spec fn decodes_to(buf: Seq<u8>, v: &Self) -> bool {
        Self::decodable(buf) && v.spec_id() == varint_i32(buf)
    }

    open spec fn decode_incomplete(buf: Seq<u8>) -> bool {
        !varint_has_boundary(buf) && buf.len() < 5
    }

    fn read(buffer: &[u8]) -> (r: Result<(Self, usize), ReadError>) {
        let (value, n) = match read_varint(buffer) {
            Ok(p) => p,
            Err(e) => {
                return Err(ReadError::VarIntError(e));
            },
        };
        match value {
            0 => Ok((ClientInformationParticleStatus::All, n)),
            1 => Ok((ClientInformationParticleStatus::Decreased, n)),
            2 => Ok((ClientInformationParticleStatus::Minimal, n)),
            _ => Err(ReadError::UnknownVariant(value)),
        }
    }
}

impl Writeable for ClientInformationParticleStatus {
    open spec fn encoding(&self) -> Seq<u8> {
        varint_encoding(self.spec_id() as u32)
    }

    open spec fn encodable(&self) -> bool {
        true
    }

    fn write(&self) -> (r: Result<Vec<u8>, WriteError>) {
        let id: i32 = match self {
            ClientInformationParticleStatus::All => 0,
            ClientInformationParticleStatus::Decreased => 1,
            ClientInformationParticleStatus::Minimal => 2,
        };
        VarInt(id).write()
    }
}

/// The client's settings, sent when configuration begins.
#[derive(Debug, Clone)]
pub struct ServerboundClientInformationPacket {
    pub locale: String,
    pub view_distance: u8,
    pub chat_mode: ClientInformationChatMode,
    pub is_chat_colors: bool,
    pub displayed_skin_parts: u8,
    pub main_hand: ClientInformationMainHand,
    pub enable_text_filtering: bool,
    pub allow_server_listings: bool,
    pub particle_status: ClientInformationParticleStatus,
}

impl ServerboundClientInformationPacket {
    pub const PACKET_ID: i32 = 0x00;
}

impl Packet for ServerboundClientInformationPacket {
    open spec fn spec_id(&self) -> i32 {
        0x00
    }

    fn id(&self) -> (r: VarInt) {
        VarInt(0x00)
    }
}

impl Readable for ServerboundClientInformationPacket {
    open spec fn decodable(buf: Seq<u8>) -> bool {
        let b1 = buf.skip(<String as Readable>::decoded_len(buf));
        let b2 = b1.skip(<u8 as Readable>::decoded_len(b1));
        let b3 = b2.skip(<ClientInformationChatMode as Readable>::decoded_len(b2));
        let b4 = b3.skip(<bool as Readable>::decoded_len(b3));
        let b5 = b4.skip(<u8 as Readable>::decoded_len(b4));
        let b6 = b5.skip(<ClientInformationMainHand as Readable>::decoded_len(b5));
        let b7 = b6.skip(<bool as Readable>::decoded_len(b6));
        let b8 = b7.skip(<bool as Readable>::decoded_len(b7));
        &&& <String as Readable>::decodable(buf)
        &&& <u8 as Readable>::decodable(b1)
        &&& <ClientInformationChatMode as Readable>::decodable(b2)
        &&& <bool as Readable>::decodable(b3)
        &&& <u8 as Readable>::decodable(b4)
        &&& <ClientInformationMainHand as Readable>::decodable(b5)
        &&& <bool as Readable>::decodable(b6)
        &&& <bool as Readable>::decodable(b7)
        &&& <ClientInformationParticleStatus as Readable>::decodable(b8)
    }

    open spec fn decoded_len(buf: Seq<u8>) -> int {
        let b1 = buf.skip(<String as Readable>::decoded_len(buf));
        let b2 = b1.skip(<u8 as Readable>::decoded_len(b1));
        let b3 = b2.skip(<ClientInformationChatMode as Readable>::decoded_len(b2));
        let b4 = b3.skip(<bool as Readable>::decoded_len(b3));
        let b5 = b4.skip(<u8 as Readable>::decoded_len(b4));
        let b6 = b5.skip(<ClientInformationMainHand as Readable>::decoded_len(b5));
        let b7 = b6.skip(<bool as Readable>::decoded_len(b6));
        let b8 = b7.skip(<bool as Readable>::decoded_len(b7));
        <String as Readable>::decoded_len(buf) + <u8 as Readable>::decoded_len(b1) + <
        ClientInformationChatMode as Readable>::decoded_len(b2) + <bool as Readable>::decoded_len(
            b3,
        ) + <u8 as Readable>::decoded_len(b4) + <ClientInformationMainHand as Readable>::decoded_len(
            b5,
        ) + <bool as Readable>::decoded_len(b6) + <bool as Readable>::decoded_len(b7) + <
        ClientInformationParticleStatus as Readable>::decoded_len(b8)
    }

    open spec fn decodes_to(buf: Seq<u8>, v: &Self) -> bool {
        let b1 = buf.skip(<String as Readable>::decoded_len(buf));
        let b2 = b1.skip(<u8 as Readable>::decoded_len(b1));
        let b3 = b2.skip(<ClientInformationChatMode as Readable>::decoded_len(b2));
        let b4 = b3.skip(<bool as Readable>::decoded_len(b3));
        let b5 = b4.skip(<u8 as Readable>::decoded_len(b4));
        let b6 = b5.skip(<ClientInformationMainHand as Readable>::decoded_len(b5));
        let b7 = b6.skip(<bool as Readable>::decoded_len(b6));
        let b8 = b7.skip(<bool as Readable>::decoded_len(b7));
        &&& <String as Readable>::decodes_to(buf, &v.locale)
        &&& <u8 as Readable>::decodes_to(b1, &v.view_distance)
        &&& <ClientInformationChatMode as Readable>::decodes_to(b2, &v.chat_mode)
        &&& <bool as Readable>::decodes_to(b3, &v.is_chat_colors)
        &&& <u8 as Readable>::decodes_to(b4, &v.displayed_skin_parts)
        &&& <ClientInformationMainHand as Readable>::decodes_to(b5, &v.main_hand)
        &&& <bool as Readable>::decodes_to(b6, &v.enable_text_filtering)
        &&& <bool as Readable>::decodes_to(b7, &v.allow_server_listings)
        &&& <ClientInformationParticleStatus as Readable>::decodes_to(b8, &v.particle_status)
    }

    open spec fn decode_incomplete(buf: Seq<u8>) -> bool {
        let b1 = buf.skip(<String as Readable>::decoded_len(buf));
        let b2 = b1.skip(<u8 as Readable>::decoded_len(b1));
        let b3 = b2.skip(<ClientInformationChatMode as Readable>::decoded_len(b2));
        let b4 = b3.skip(<bool as Readable>::decoded_len(b3));
        let b5 = b4.skip(<u8 as Readable>::decoded_len(b4));
        let b6 = b5.skip(<ClientInformationMainHand as Readable>::decoded_len(b5));
        let b7 = b6.skip(<bool as Readable>::decoded_len(b6));
        let b8 = b7.skip(<bool as Readable>::decoded_len(b7));
        if !<String as Readable>::decodable(buf) {
            <String as Readable>::decode_incomplete(buf)
        } else if !<u8 as Readable>::decodable(b1) {
            <u8 as Readable>::decode_incomplete(b1)
        } else if !<ClientInformationChatMode as Readable>::decodable(b2) {
            <ClientInformationChatMode as Readable>::decode_incomplete(b2)
        } else if !<bool as Readable>::decodable(b3) {
            <bool as Readable>::decode_incomplete(b3)
        } else if !<u8 as Readable>::decodable(b4) {
            <u8 as Readable>::decode_incomplete(b4)
        } else if !<ClientInformationMainHand as Readable>::decodable(b5) {
            <ClientInformationMainHand as Readable>::decode_incomplete(b5)
        } else if !<bool as Readable>::decodable(b6) {
            <bool as Readable>::decode_incomplete(b6)
        } else if !<bool as Readable>::decodable(b7) {
            <bool as Readable>::decode_incomplete(b7)
        } else {
            <ClientInformationParticleStatus as Readable>::decode_incomplete(b8)
        }
    }

    fn read(buffer: &[u8]) -> (r: Result<(Self, usize), ReadError>) {
        let mut reader = BufferReader::new(buffer);
        let locale: String = match reader.read() {
            Ok(v) => v,
            Err(e) => {
                return Err(e);
            },
        };
        let view_distance: u8 = match reader.read() {
            Ok(v) => v,
            Err(e) => {
                return Err(e);
            },
        };
        let chat_mode: ClientInformationChatMode = match reader.read() {
            Ok(v) => v,
            Err(e) => {
                return Err(e);
            },
        };
        let is_chat_colors: bool = match reader.read() {
            Ok(v) => v,
            Err(e) => {
                return Err(e);
            },
        };
        let displayed_skin_parts: u8 = match reader.read() {
            Ok(v) => v,
            Err(e) => {
                return Err(e);
            },
        };
        let main_hand: ClientInformationMainHand = match reader.read() {
            Ok(v) => v,
            Err(e) => {
                return Err(e);
            },
        };
        let enable_text_filtering: bool = match reader.read() {
            Ok(v) => v,
            Err(e) => {
                return Err(e);
            },
        };
        let allow_server_listings: bool = match reader.read() {
            Ok(v) => v,
            Err(e) => {
                return Err(e);
            },
        };
        let particle_status: ClientInformationParticleStatus = match reader.read() {
            Ok(v) => v,
            Err(e) => {
                return Err(e);
            },
        };
        Ok((
            ServerboundClientInformationPacket {
                locale,
                view_distance,
                chat_mode,
                is_chat_colors,
                displayed_skin_parts,
                main_hand,
                enable_text_filtering,
                allow_server_listings,
                particle_status,
            },
            reader.consumed(),
        ))
    }
}

/// A custom-channel message from the client, named by its channel.
#[derive(Debug, Clone)]
pub struct ServerboundPluginMessagePacket {
    pub channel: Identifier,
}

impl ServerboundPluginMessagePacket {
    pub const PACKET_ID: i32 = 0x02;
}

impl Packet for ServerboundPluginMessagePacket {
    open spec fn spec_id(&self) -> i32 {
        0x02
    }

    fn id(&self) -> (r: VarInt) {
        VarInt(0x02)
    }
}

impl Readable for ServerboundPluginMessagePacket {
    open spec fn decodable(buf: Seq<u8>) -> bool {
        <Identifier as Readable>::decodable(buf)
    }

    open spec fn decoded_len(buf: Seq<u8>) -> int {
        <Identifier as Readable>::decoded_len(buf)
    }

    open spec fn decodes_to(buf: Seq<u8>, v: &Self) -> bool {
        <Identifier as Readable>::decodes_to(buf, &v.channel)
    }

    open spec fn decode_incomplete(buf: Seq<u8>) -> bool {
        <Identifier as Readable>::decode_incomplete(buf)
    }

    fn read(buffer: &[u8]) -> (r: Result<(Self, usize), ReadError>) {
        let mut reader = BufferReader::new(buffer);
        let channel: Identifier = match reader.read() {
            Ok(v) => v,
            Err(e) => {
                return Err(e);
            },
        };
        Ok((ServerboundPluginMessagePacket { channel }, reader.consumed()))
    }
}

/// The client acknowledges that configuration is finished; the connection
/// moves on to play.  The packet has no body.
#[derive(Debug, Clone)]
pub struct ServerboundAcknowledgeFinishPacket {}

impl ServerboundAcknowledgeFinishPacket {
    pub const PACKET_ID: i32 = 0x03;
}

impl Packet for ServerboundAcknowledgeFinishPacket {
    open spec fn spec_id(&self) -> i32 {
        0x03
    }

    fn id(&self) -> (r: VarInt) {
        VarInt(0x03)
    }
}

impl Readable for ServerboundAcknowledgeFinishPacket {
    open spec fn decodable(buf: Seq<u8>) -> bool {
        true
    }

    open spec fn decoded_len(buf: Seq<u8>) -> int {
        0
    }

    open spec fn decodes_to(buf: Seq<u8>, v: &Self) -> bool {
        true
    }

    open spec fn decode_incomplete(buf: Seq<u8>) -> bool {
        false
    }

    fn read(buffer: &[u8]) -> (r: Result<(Self, usize), ReadError>) {
        Ok((ServerboundAcknowledgeFinishPacket {}, 0))
    }
}

/// The data packs the client knows.
#[derive(Debug, Clone)]
pub struct ServerboundKnownPacksPacket {
    pub packs: PrefixedArray<KnownPack>,
}

impl ServerboundKnownPacksPacket {
    pub const PACKET_ID: i32 = 0x07;
}

impl Packet for ServerboundKnownPacksPacket {
    open spec fn spec_id(&self) -> i32 {
        0x07
    }

    fn id(&self) -> (r: VarInt) {
        VarInt(0x07)
    }
}

impl Readable for ServerboundKnownPacksPacket {
    open spec fn decodable(buf: Seq<u8>) -> bool {
        <PrefixedArray<KnownPack> as Readable>::decodable(buf)
    }

    open spec fn decoded_len(buf: Seq<u8>) -> int {
        <PrefixedArray<KnownPack> as Readable>::decoded_len(buf)
    }

    open spec fn decodes_to(buf: Seq<u8>, v: &Self) -> bool {
        <PrefixedArray<KnownPack> as Readable>::decodes_to(buf, &v.packs)
    }

    open spec fn decode_incomplete(buf: Seq<u8>) -> bool {
        <PrefixedArray<KnownPack> as Readable>::decode_incomplete(buf)
    }

    fn read(buffer: &[u8]) -> (r: Result<(Self, usize), ReadError>) {
        let mut reader = BufferReader::new(buffer);
        let packs: PrefixedArray<KnownPack> = match reader.read() {
            Ok(v) => v,
            Err(e) => {
                return Err(e);
            },
        };
        Ok((ServerboundKnownPacksPacket { packs }, reader.consumed()))
    }
}

/// The data packs the server offers.
#[derive(Debug, Clone)]
pub struct ClientboundKnownPacksPacket {
    pub packs: PrefixedArray<KnownPack>,
}

impl ClientboundKnownPacksPacket {
    pub const PACKET_ID: i32 = 0x03;
}

impl Packet for ClientboundKnownPacksPacket {
    open spec fn spec_id(&self) -> i32 {
        0x03
    }

    fn id(&self) -> (r: VarInt) {
        VarInt(0x03)
    }
}

impl Writeable for ClientboundKnownPacksPacket {
    open spec fn encoding(&self) -> Seq<u8> {
        self.packs.encoding()
    }

    open spec fn encodable(&self) -> bool {
        self.packs.encodable()
    }

    fn write(&self) -> (r: Result<Vec<u8>, WriteError>) {
        self.packs.write()
    }
}

/// The server declares configuration finished.  The packet has no body.
#[derive(Debug, Clone)]
pub struct ClientboundFinishConfigurationPacket {}

impl ClientboundFinishConfigurationPacket {
    pub const PACKET_ID: i32 = 0x03;
}

impl Packet for ClientboundFinishConfigurationPacket {
    open spec fn spec_id(&self) -> i32 {
        0x03
    }

    fn id(&self) -> (r: VarInt) {
        VarInt(0x03)
    }
}

impl Writeable for ClientboundFinishConfigurationPacket {
    open spec fn encoding(&self) -> Seq<u8> {
        Seq::empty()
    }

    open spec fn encodable(&self) -> bool {
        true
    }

    fn write(&self) -> (r: Result<Vec<u8>, WriteError>) {
        let out: Vec<u8> = Vec::new();
        proof {
            assert(out@ =~= Seq::<u8>::empty());
        }
        Ok(out)
    }
}

/// One registry's NBT-encoded entries, sent during configuration.  The
/// payload bytes are produced by the embedding program's NBT encoder; this
/// packet carries them verbatim.
#[derive(Debug, Clone)]
pub struct ClientboundRegistryDataPacket {
    pub registry_data: Vec<u8>,
}

impl ClientboundRegistryDataPacket {
    pub const PACKET_ID: i32 = 0x07;
}

impl Packet for ClientboundRegistryDataPacket {
    open spec fn spec_id(&self) -> i32 {
        0x07
    }

    fn id(&self) -> (r: VarInt) {
        VarInt(0x07)
    }
}

impl Writeable for ClientboundRegistryDataPacket {
    open spec fn encoding(&self) -> Seq<u8> {
        self.registry_data@
    }

    open spec fn encodable(&self) -> bool {
        true
    }

    fn write(&self) -> (r: Result<Vec<u8>, WriteError>) {
        self.registry_data.write()
    }
}

} // verus!
