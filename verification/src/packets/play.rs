//! Play packets: teleport confirmation and the clientbound world snapshot
//! payloads built on the bit-packed encoders.
//!
//! Rotation and position fields that are IEEE-754 floats on the wire are
//! carried here as the bit patterns they serialize to (`u32` for single
//! precision, `u64` for double); the embedding program converts at the edge.

use vstd::prelude::*;

use crate::network::BufferReader;
use crate::identifier::Identifier;
use crate::protocol::{
    u64_from_be, PrefixedArray, ProtocolState, ReadError, Readable, WriteError, Writeable,
};
use crate::registry::{spec_key, RegistryError};
use crate::varint::{
    read_varint, varint_encoding, varint_has_boundary, varint_i32, varint_len, VarInt,
};
use crate::world::{chunk_payload_ok, words_be_bytes, Chunk, Heightmap};

use crate::packets::{Packet, PacketDecoder, PacketsRegistry};

verus! {

/// Registers this state's serverbound packets.
pub fn setup_registry(registry: &mut PacketsRegistry)
    requires
        !old(registry)@.contains_key(spec_key(ProtocolState::Play, VarInt(0x00))),
    ensures
        final(registry)@ == old(registry)@.insert(
            spec_key(ProtocolState::Play, VarInt(0x00)),
            PacketDecoder::ConfirmTeleportation,
        ),
{
    let r: Result<(), RegistryError> = registry.register(
        ProtocolState::Play,
        VarInt(0x00),
        PacketDecoder::ConfirmTeleportation,
    );
    r.unwrap();
}

/// The client confirms a teleport by echoing its id.
#[derive(Debug, Clone)]
pub struct ServerboundConfirmTeleportationPacket {
    pub teleport_id: VarInt,
}

impl ServerboundConfirmTeleportationPacket {
    pub const PACKET_ID: i32 = 0x00;
}

impl Packet for ServerboundConfirmTeleportationPacket {
    open spec fn spec_id(&self) -> i32 {
        0x00
    }

    fn id(&self) -> (r: VarInt) {
        VarInt(0x00)
    }
}

impl Readable for ServerboundConfirmTeleportationPacket {
    open spec fn decodable(buf: Seq<u8>) -> bool {
        <VarInt as Readable>::decodable(buf)
    }

    open spec fn decoded_len(buf: Seq<u8>) -> int {
        <VarInt as Readable>::decoded_len(buf)
    }

    open spec fn decodes_to(buf: Seq<u8>, v: &Self) -> bool {
        <VarInt as Readable>::decodes_to(buf, &v.teleport_id)
    }

    open spec fn decode_incomplete(buf: Seq<u8>) -> bool {
        <VarInt as Readable>::decode_incomplete(buf)
    }

    fn read(buffer: &[u8]) -> (r: Result<(Self, usize), ReadError>) {
        let mut reader = BufferReader::new(buffer);
        let teleport_id: VarInt = match reader.read() {
            Ok(v) => v,
            Err(e) => {
                return Err(e);
            },
        };
        Ok((ServerboundConfirmTeleportationPacket { teleport_id }, reader.consumed()))
    }
}

/// A set of bits on the wire: a VarInt word count, then that many 64-bit
/// big-endian words.
#[derive(Debug, Clone)]
pub struct BitSet(pub Vec<u64>);

impl BitSet {
    /// A bit set with no words: every bit reads as zero.
    pub fn empty() -> (r: Self)
        ensures
            r.0@.len() == 0,
    {
        BitSet(Vec::new())
    }
}

impl Writeable for BitSet {
    open spec fn encoding(&self) -> Seq<u8> {
        varint_encoding(self.0@.len() as u32) + words_be_bytes(self.0@)
    }

    open spec fn encodable(&self) -> bool {
        self.0@.len() <= 0x7fffffff
    }

    fn write(&self) -> (r: Result<Vec<u8>, WriteError>) {
        if self.0.len() > 0x7fffffff {
            return Err(WriteError::TooLong);
        }
        let (head, head_len) = crate::varint::write_varint(self.0.len() as i32).unwrap();
        let mut out: Vec<u8> = Vec::new();
        out.extend_from_slice(vstd::slice::slice_subrange(head.as_slice(), 0, head_len));
        crate::world::push_words_be(&mut out, &self.0);
        proof {
            assert((self.0@.len() as i32) as u32 == self.0@.len() as u32);
            assert(out@ =~= self.encoding());
        }
        Ok(out)
    }
}


impl Readable for BitSet {
    open spec fn decodable(buf: Seq<u8>) -> bool {
        &&& varint_has_boundary(buf)
        &&& varint_i32(buf) >= 0
        &&& varint_len(buf) + 8 * varint_i32(buf) <= buf.len()
    }

    open spec fn decoded_len(buf: Seq<u8>) -> int {
        varint_len(buf) + 8 * varint_i32(buf)
    }

    open spec fn decodes_to(buf: Seq<u8>, v: &Self) -> bool {
        &&& Self::decodable(buf)
        &&& v.0@.len() == varint_i32(buf)
        &&& forall|i: int|
            0 <= i < varint_i32(buf) ==> #[trigger] v.0@[i] == u64_from_be(
                buf.subrange(varint_len(buf) + 8 * i, varint_len(buf) + 8 * i + 8),
            )
    }

    open spec fn decode_incomplete(buf: Seq<u8>) -> bool {
        (!varint_has_boundary(buf) && buf.len() < 5) || (varint_has_boundary(buf)
            && varint_i32(buf) >= 0 && varint_len(buf) + 8 * varint_i32(buf) > buf.len())
    }

    fn read(buffer: &[u8]) -> (r: Result<(Self, usize), ReadError>) {
        let (count_v, count_n) = match read_varint(buffer) {
            Ok(p) => p,
            Err(e) => {
                return Err(ReadError::VarIntError(e));
            },
        };
        if count_v < 0 {
            return Err(ReadError::MalformedBuffer);
        }
        let count = count_v as usize;
        if (buffer.len() - count_n) / 8 < count {
            return Err(ReadError::Incomplete);
        }
        proof {
            assert(count_n + 8 * (count as int) <= buffer@.len()) by (nonlinear_arith)
                requires
                    (buffer@.len() - count_n) / 8 >= count as int,
                    count_n <= buffer@.len(),
                    count >= 0,
            ;
        }
        let mut words: Vec<u64> = Vec::new();
        let mut i: usize = 0;
        let mut base: usize = count_n;
        while i < count
            invariant
                0 <= i <= count,
                count_n + 8 * (count as int) <= buffer@.len(),
                base as int == count_n + 8 * (i as int),
                count as int == varint_i32(buffer@),
                count_n as int == varint_len(buffer@),
                words@.len() == i,
                forall|j: int|
                    0 <= j < i ==> #[trigger] words@[j] == u64_from_be(
                        buffer@.subrange(count_n + 8 * j, count_n + 8 * j + 8),
                    ),
            decreases count - i,
        {
            proof {
                assert(8 * (i as int) + 8 <= 8 * (count as int)) by (nonlinear_arith)
                    requires
                        i < count,
                ;
                assert(base + 8 <= buffer@.len());
            }
            let word: u64 = ((buffer[base] as u64) << 56) | ((buffer[base + 1] as u64) << 48) | ((
            buffer[base + 2] as u64) << 40) | ((buffer[base + 3] as u64) << 32) | ((buffer[base
                + 4] as u64) << 24) | ((buffer[base + 5] as u64) << 16) | ((buffer[base
                + 6] as u64) << 8) | (buffer[base + 7] as u64);
            proof {
                let piece = buffer@.subrange(
                    count_n + 8 * (i as int),
                    count_n + 8 * (i as int) + 8,
                );
                assert(piece[0] == buffer@[base as int]);
                assert(piece[1] == buffer@[base as int + 1]);
                assert(piece[2] == buffer@[base as int + 2]);
                assert(piece[3] == buffer@[base as int + 3]);
                assert(piece[4] == buffer@[base as int + 4]);
                assert(piece[5] == buffer@[base as int + 5]);
                assert(piece[6] == buffer@[base as int + 6]);
                assert(piece[7] == buffer@[base as int + 7]);
                assert(u64_from_be(piece) == word);
            }
            words.push(word);
            i = i + 1;
            base = base + 8;
        }
        Ok((BitSet(words), base))
    }
}

/// A game event notification, e.g. "start waiting for level chunks".  The
/// value carries an IEEE-754 single-precision bit pattern.
#[derive(Debug, Clone)]
pub struct ClientboundGameEventPacket {
    pub event: u8,
    pub value: u32,
}

impl ClientboundGameEventPacket {
    pub const PACKET_ID: i32 = 0x22;
}

impl Packet for ClientboundGameEventPacket {
    open spec fn spec_id(&self) -> i32 {
        0x22
    }

    fn id(&self) -> (r: VarInt) {
        VarInt(0x22)
    }
}

impl Writeable for ClientboundGameEventPacket {
    open spec fn encoding(&self) -> Seq<u8> {
        self.event.encoding() + self.value.encoding()
    }

    open spec fn encodable(&self) -> bool {
        true
    }

    fn write(&self) -> (r: Result<Vec<u8>, WriteError>) {
        let mut out: Vec<u8> = Vec::new();
        let piece = match self.event.write() {
            Ok(b) => b,
            Err(e) => {
                return Err(e);
            },
        };
        out.extend_from_slice(piece.as_slice());
        let piece = match self.value.write() {
            Ok(b) => b,
            Err(e) => {
                return Err(e);
            },
        };
        out.extend_from_slice(piece.as_slice());
        proof {
            assert(out@ =~= self.encoding());
        }
        Ok(out)
    }
}

/// Synchronizes the player's position and velocity.  The coordinate and
/// rotation fields carry IEEE-754 bit patterns (`u64` double, `u32` single).
#[derive(Debug, Clone)]
pub struct ClientboundSynchronizePlayerPositionPacket {
    pub teleport_id: VarInt,
    pub x: u64,
    pub y: u64,
    pub z: u64,
    pub velocity_x: u64,
    pub velocity_y: u64,
    pub velocity_z: u64,
    pub yaw: u32,
    pub pitch: u32,
    pub flags: i32,
}

impl ClientboundSynchronizePlayerPositionPacket {
    pub const PACKET_ID: i32 = 0x41;
}

impl Packet for ClientboundSynchronizePlayerPositionPacket {
    open spec fn spec_id(&self) -> i32 {
        0x41
    }

    fn id(&self) -> (r: VarInt) {
        VarInt(0x41)
    }
}

impl Writeable for ClientboundSynchronizePlayerPositionPacket {
    open spec fn encoding(&self) -> Seq<u8> {
        self.teleport_id.encoding() + self.x.encoding() + self.y.encoding() + self.z.encoding()
            + self.velocity_x.encoding() + self.velocity_y.encoding() + self.velocity_z.encoding()
            + self.yaw.encoding() + self.pitch.encoding() + self.flags.encoding()
    }

    open spec fn encodable(&self) -> bool {
        true
    }

    #[verifier::rlimit(100)]
    fn write(&self) -> (r: Result<Vec<u8>, WriteError>) {
        let mut out: Vec<u8> = Vec::new();
        let piece = match self.teleport_id.write() {
            Ok(b) => b,
            Err(e) => {
                return Err(e);
            },
        };
        out.extend_from_slice(piece.as_slice());
        let piece = match self.x.write() {
            Ok(b) => b,
            Err(e) => {
                return Err(e);
            },
        };
        out.extend_from_slice(piece.as_slice());
        let piece = match self.y.write() {
            Ok(b) => b,
            Err(e) => {
                return Err(e);
            },
        };
        out.extend_from_slice(piece.as_slice());
        let piece = match self.z.write() {
            Ok(b) => b,
            Err(e) => {
                return Err(e);
            },
        };
        out.extend_from_slice(piece.as_slice());
        let piece = match self.velocity_x.write() {
            Ok(b) => b,
            Err(e) => {
                return Err(e);
            },
        };
        out.extend_from_slice(piece.as_slice());
        let piece = match self.velocity_y.write() {
            Ok(b) => b,
            Err(e) => {
                return Err(e);
            },
        };
        out.extend_from_slice(piece.as_slice());
        let piece = match self.velocity_z.write() {
            Ok(b) => b,
            Err(e) => {
                return Err(e);
            },
        };
        out.extend_from_slice(piece.as_slice());
        let piece = match self.yaw.write() {
            Ok(b) => b,
            Err(e) => {
                return Err(e);
            },
        };
        out.extend_from_slice(piece.as_slice());
        let piece = match self.pitch.write() {
            Ok(b) => b,
            Err(e) => {
                return Err(e);
            },
        };
        out.extend_from_slice(piece.as_slice());
        let piece = match self.flags.write() {
            Ok(b) => b,
            Err(e) => {
                return Err(e);
            },
        };
        out.extend_from_slice(piece.as_slice());
        proof {
            assert(out@ =~= self.encoding());
        }
        Ok(out)
    }
}

/// The login-to-play handoff packet carrying the world parameters.
#[derive(Debug, Clone)]
pub struct ClientboundPlayPacket {
    pub entity_id: i32,
    pub is_hardcore: bool,
    pub dimension_names: PrefixedArray<Identifier>,
    pub max_players: VarInt,
    pub view_distance: VarInt,
    pub simulation_distance: VarInt,
    pub reduced_debug_info: bool,
    pub enable_respawn_screen: bool,
    pub do_limited_crafting: bool,
    pub dimension_type: VarInt,
    pub dimension_name: Identifier,
    pub hashed_seed: i64,
    pub game_mode: u8,
    pub previous_game_mode: i8,
    pub is_debug: bool,
    pub is_flat: bool,
    pub has_death_location: bool,
    pub death_dimension_name: Option<Identifier>,
    pub death_location: Option<i64>,
    pub portal_cooldown: VarInt,
    pub sea_level: VarInt,
    pub enforces_secure_chat: bool,
}

impl ClientboundPlayPacket {
    pub const PACKET_ID: i32 = 0x2B;
}

impl Packet for ClientboundPlayPacket {
    open spec fn spec_id(&self) -> i32 {
        0x2B
    }

    fn id(&self) -> (r: VarInt) {
        VarInt(0x2B)
    }
}

impl Writeable for ClientboundPlayPacket {
    open spec fn encoding(&self) -> Seq<u8> {
        self.entity_id.encoding() + self.is_hardcore.encoding() + self.dimension_names.encoding()
            + self.max_players.encoding() + self.view_distance.encoding()
            + self.simulation_distance.encoding() + self.reduced_debug_info.encoding()
            + self.enable_respawn_screen.encoding() + self.do_limited_crafting.encoding()
            + self.dimension_type.encoding() + self.dimension_name.encoding()
            + self.hashed_seed.encoding() + self.game_mode.encoding()
            + self.previous_game_mode.encoding() + self.is_debug.encoding()
            + self.is_flat.encoding() + self.has_death_location.encoding()
            + self.death_dimension_name.encoding() + self.death_location.encoding()
            + self.portal_cooldown.encoding() + self.sea_level.encoding()
            + self.enforces_secure_chat.encoding()
    }

    open spec fn encodable(&self) -> bool {
        &&& self.dimension_names.encodable()
        &&& self.dimension_name.encodable()
        &&& self.death_dimension_name.encodable()
    }

    #[verifier::rlimit(100)]
    fn write(&self) -> (r: Result<Vec<u8>, WriteError>) {
        let mut out: Vec<u8> = Vec::new();
        let piece = match self.entity_id.write() {
            Ok(b) => b,
            Err(e) => {
                return Err(e);
            },
        };
        out.extend_from_slice(piece.as_slice());
        proof {
            assert(out@ =~= self.entity_id.encoding());
        }
        let piece = match self.is_hardcore.write() {
            Ok(b) => b,
            Err(e) => {
                return Err(e);
            },
        };
        out.extend_from_slice(piece.as_slice());
        proof {
            assert(out@ =~= self.entity_id.encoding() + self.is_hardcore.encoding());
        }
        let piece = match self.dimension_names.write() {
            Ok(b) => b,
            Err(e) => {
                return Err(e);
            },
        };
        out.extend_from_slice(piece.as_slice());
        proof {
            assert(out@ =~= self.entity_id.encoding() + self.is_hardcore.encoding() + self.dimension_names.encoding());
        }
        let piece = match self.max_players.write() {
            Ok(b) => b,
            Err(e) => {
                return Err(e);
            },
        };
        out.extend_from_slice(piece.as_slice());
        proof {
            assert(out@ =~= self.entity_id.encoding() + self.is_hardcore.encoding() + self.dimension_names.encoding() + self.max_players.encoding());
        }
        let piece = match self.view_distance.write() {
            Ok(b) => b,
            Err(e) => {
                return Err(e);
            },
        };
        out.extend_from_slice(piece.as_slice());
        proof {
            assert(out@ =~= self.entity_id.encoding() + self.is_hardcore.encoding() + self.dimension_names.encoding() + self.max_players.encoding() + self.view_distance.encoding());
        }
        let piece = match self.simulation_distance.write() {
            Ok(b) => b,
            Err(e) => {
                return Err(e);
            },
        };
        out.extend_from_slice(piece.as_slice());
        proof {
            assert(out@ =~= self.entity_id.encoding() + self.is_hardcore.encoding() + self.dimension_names.encoding() + self.max_players.encoding() + self.view_distance.encoding() + self.simulation_distance.encoding());
        }
        let piece = match self.reduced_debug_info.write() {
            Ok(b) => b,
            Err(e) => {
                return Err(e);
            },
        };
        out.extend_from_slice(piece.as_slice());
        proof {
            assert(out@ =~= self.entity_id.encoding() + self.is_hardcore.encoding() + self.dimension_names.encoding() + self.max_players.encoding() + self.view_distance.encoding() + self.simulation_distance.encoding() + self.reduced_debug_info.encoding());
        }
        let piece = match self.enable_respawn_screen.write() {
            Ok(b) => b,
            Err(e) => {
                return Err(e);
            },
        };
        out.extend_from_slice(piece.as_slice());
        proof {
            assert(out@ =~= self.entity_id.encoding() + self.is_hardcore.encoding() + self.dimension_names.encoding() + self.max_players.encoding() + self.view_distance.encoding() + self.simulation_distance.encoding() + self.reduced_debug_info.encoding() + self.enable_respawn_screen.encoding());
        }
        let piece = match self.do_limited_crafting.write() {
            Ok(b) => b,
            Err(e) => {
                return Err(e);
            },
        };
        out.extend_from_slice(piece.as_slice());
        proof {
            assert(out@ =~= self.entity_id.encoding() + self.is_hardcore.encoding() + self.dimension_names.encoding() + self.max_players.encoding() + self.view_distance.encoding() + self.simulation_distance.encoding() + self.reduced_debug_info.encoding() + self.enable_respawn_screen.encoding() + self.do_limited_crafting.encoding());
        }
        let piece = match self.dimension_type.write() {
            Ok(b) => b,
            Err(e) => {
                return Err(e);
            },
        };
        out.extend_from_slice(piece.as_slice());
        proof {
            assert(out@ =~= self.entity_id.encoding() + self.is_hardcore.encoding() + self.dimension_names.encoding() + self.max_players.encoding() + self.view_distance.encoding() + self.simulation_distance.encoding() + self.reduced_debug_info.encoding() + self.enable_respawn_screen.encoding() + self.do_limited_crafting.encoding() + self.dimension_type.encoding());
        }
        let piece = match self.dimension_name.write() {
            Ok(b) => b,
            Err(e) => {
                return Err(e);
            },
        };
        out.extend_from_slice(piece.as_slice());
        proof {
            assert(out@ =~= self.entity_id.encoding() + self.is_hardcore.encoding() + self.dimension_names.encoding() + self.max_players.encoding() + self.view_distance.encoding() + self.simulation_distance.encoding() + self.reduced_debug_info.encoding() + self.enable_respawn_screen.encoding() + self.do_limited_crafting.encoding() + self.dimension_type.encoding() + self.dimension_name.encoding());
        }
        let piece = match self.hashed_seed.write() {
            Ok(b) => b,
            Err(e) => {
                return Err(e);
            },
        };
        out.extend_from_slice(piece.as_slice());
        proof {
            assert(out@ =~= self.entity_id.encoding() + self.is_hardcore.encoding() + self.dimension_names.encoding() + self.max_players.encoding() + self.view_distance.encoding() + self.simulation_distance.encoding() + self.reduced_debug_info.encoding() + self.enable_respawn_screen.encoding() + self.do_limited_crafting.encoding() + self.dimension_type.encoding() + self.dimension_name.encoding() + self.hashed_seed.encoding());
        }
        let piece = match self.game_mode.write() {
            Ok(b) => b,
            Err(e) => {
                return Err(e);
            },
        };
        out.extend_from_slice(piece.as_slice());
        proof {
            assert(out@ =~= self.entity_id.encoding() + self.is_hardcore.encoding() + self.dimension_names.encoding() + self.max_players.encoding() + self.view_distance.encoding() + self.simulation_distance.encoding() + self.reduced_debug_info.encoding() + self.enable_respawn_screen.encoding() + self.do_limited_crafting.encoding() + self.dimension_type.encoding() + self.dimension_name.encoding() + self.hashed_seed.encoding() + self.game_mode.encoding());
        }
        let piece = match self.previous_game_mode.write() {
            Ok(b) => b,
            Err(e) => {
                return Err(e);
            },
        };
        out.extend_from_slice(piece.as_slice());
        proof {
            assert(out@ =~= self.entity_id.encoding() + self.is_hardcore.encoding() + self.dimension_names.encoding() + self.max_players.encoding() + self.view_distance.encoding() + self.simulation_distance.encoding() + self.reduced_debug_info.encoding() + self.enable_respawn_screen.encoding() + self.do_limited_crafting.encoding() + self.dimension_type.encoding() + self.dimension_name.encoding() + self.hashed_seed.encoding() + self.game_mode.encoding() + self.previous_game_mode.encoding());
        }
        let piece = match self.is_debug.write() {
            Ok(b) => b,
            Err(e) => {
                return Err(e);
            },
        };
        out.extend_from_slice(piece.as_slice());
        proof {
            assert(out@ =~= self.entity_id.encoding() + self.is_hardcore.encoding() + self.dimension_names.encoding() + self.max_players.encoding() + self.view_distance.encoding() + self.simulation_distance.encoding() + self.reduced_debug_info.encoding() + self.enable_respawn_screen.encoding() + self.do_limited_crafting.encoding() + self.dimension_type.encoding() + self.dimension_name.encoding() + self.hashed_seed.encoding() + self.game_mode.encoding() + self.previous_game_mode.encoding() + self.is_debug.encoding());
        }
        let piece = match self.is_flat.write() {
            Ok(b) => b,
            Err(e) => {
                return Err(e);
            },
        };
        out.extend_from_slice(piece.as_slice());
        proof {
            assert(out@ =~= self.entity_id.encoding() + self.is_hardcore.encoding() + self.dimension_names.encoding() + self.max_players.encoding() + self.view_distance.encoding() + self.simulation_distance.encoding() + self.reduced_debug_info.encoding() + self.enable_respawn_screen.encoding() + self.do_limited_crafting.encoding() + self.dimension_type.encoding() + self.dimension_name.encoding() + self.hashed_seed.encoding() + self.game_mode.encoding() + self.previous_game_mode.encoding() + self.is_debug.encoding() + self.is_flat.encoding());
        }
        let piece = match self.has_death_location.write() {
            Ok(b) => b,
            Err(e) => {
                return Err(e);
            },
        };
        out.extend_from_slice(piece.as_slice());
        proof {
            assert(out@ =~= self.entity_id.encoding() + self.is_hardcore.encoding() + self.dimension_names.encoding() + self.max_players.encoding() + self.view_distance.encoding() + self.simulation_distance.encoding() + self.reduced_debug_info.encoding() + self.enable_respawn_screen.encoding() + self.do_limited_crafting.encoding() + self.dimension_type.encoding() + self.dimension_name.encoding() + self.hashed_seed.encoding() + self.game_mode.encoding() + self.previous_game_mode.encoding() + self.is_debug.encoding() + self.is_flat.encoding() + self.has_death_location.encoding());
        }
        let piece = match self.death_dimension_name.write() {
            Ok(b) => b,
            Err(e) => {
                return Err(e);
            },
        };
        out.extend_from_slice(piece.as_slice());
        proof {
            assert(out@ =~= self.entity_id.encoding() + self.is_hardcore.encoding() + self.dimension_names.encoding() + self.max_players.encoding() + self.view_distance.encoding() + self.simulation_distance.encoding() + self.reduced_debug_info.encoding() + self.enable_respawn_screen.encoding() + self.do_limited_crafting.encoding() + self.dimension_type.encoding() + self.dimension_name.encoding() + self.hashed_seed.encoding() + self.game_mode.encoding() + self.previous_game_mode.encoding() + self.is_debug.encoding() + self.is_flat.encoding() + self.has_death_location.encoding() + self.death_dimension_name.encoding());
        }
        let piece = match self.death_location.write() {
            Ok(b) => b,
            Err(e) => {
                return Err(e);
            },
        };
        out.extend_from_slice(piece.as_slice());
        proof {
            assert(out@ =~= self.entity_id.encoding() + self.is_hardcore.encoding() + self.dimension_names.encoding() + self.max_players.encoding() + self.view_distance.encoding() + self.simulation_distance.encoding() + self.reduced_debug_info.encoding() + self.enable_respawn_screen.encoding() + self.do_limited_crafting.encoding() + self.dimension_type.encoding() + self.dimension_name.encoding() + self.hashed_seed.encoding() + self.game_mode.encoding() + self.previous_game_mode.encoding() + self.is_debug.encoding() + self.is_flat.encoding() + self.has_death_location.encoding() + self.death_dimension_name.encoding() + self.death_location.encoding());
        }
        let piece = match self.portal_cooldown.write() {
            Ok(b) => b,
            Err(e) => {
                return Err(e);
            },
        };
        out.extend_from_slice(piece.as_slice());
        proof {
            assert(out@ =~= self.entity_id.encoding() + self.is_hardcore.encoding() + self.dimension_names.encoding() + self.max_players.encoding() + self.view_distance.encoding() + self.simulation_distance.encoding() + self.reduced_debug_info.encoding() + self.enable_respawn_screen.encoding() + self.do_limited_crafting.encoding() + self.dimension_type.encoding() + self.dimension_name.encoding() + self.hashed_seed.encoding() + self.game_mode.encoding() + self.previous_game_mode.encoding() + self.is_debug.encoding() + self.is_flat.encoding() + self.has_death_location.encoding() + self.death_dimension_name.encoding() + self.death_location.encoding() + self.portal_cooldown.encoding());
        }
        let piece = match self.sea_level.write() {
            Ok(b) => b,
            Err(e) => {
                return Err(e);
            },
        };
        out.extend_from_slice(piece.as_slice());
        proof {
            assert(out@ =~= self.entity_id.encoding() + self.is_hardcore.encoding() + self.dimension_names.encoding() + self.max_players.encoding() + self.view_distance.encoding() + self.simulation_distance.encoding() + self.reduced_debug_info.encoding() + self.enable_respawn_screen.encoding() + self.do_limited_crafting.encoding() + self.dimension_type.encoding() + self.dimension_name.encoding() + self.hashed_seed.encoding() + self.game_mode.encoding() + self.previous_game_mode.encoding() + self.is_debug.encoding() + self.is_flat.encoding() + self.has_death_location.encoding() + self.death_dimension_name.encoding() + self.death_location.encoding() + self.portal_cooldown.encoding() + self.sea_level.encoding());
        }
        let piece = match self.enforces_secure_chat.write() {
            Ok(b) => b,
            Err(e) => {
                return Err(e);
            },
        };
        out.extend_from_slice(piece.as_slice());
        proof {
            assert(out@ =~= self.entity_id.encoding() + self.is_hardcore.encoding() + self.dimension_names.encoding() + self.max_players.encoding() + self.view_distance.encoding() + self.simulation_distance.encoding() + self.reduced_debug_info.encoding() + self.enable_respawn_screen.encoding() + self.do_limited_crafting.encoding() + self.dimension_type.encoding() + self.dimension_name.encoding() + self.hashed_seed.encoding() + self.game_mode.encoding() + self.previous_game_mode.encoding() + self.is_debug.encoding() + self.is_flat.encoding() + self.has_death_location.encoding() + self.death_dimension_name.encoding() + self.death_location.encoding() + self.portal_cooldown.encoding() + self.sea_level.encoding() + self.enforces_secure_chat.encoding());
        }
        proof {
            assert(out@ =~= self.encoding());
        }
        Ok(out)
    }
}

/// The heightmaps of a chunk-data packet, each written by
/// `Heightmap::write`'s contract, concatenated in order.
pub open spec fn heightmaps_payload_ok(hs: Seq<Heightmap>, p: Seq<u8>) -> bool
    decreases hs.len(),
{
    if hs.len() == 0 {
        p.len() == 0
    } else {
        exists|b: Seq<u8>, rest: Seq<u8>|
            hs[0].heightmap_bytes_ok(b) && p == b + rest && heightmaps_payload_ok(
                hs.drop_first(),
                rest,
            )
    }
}

/// Appending a heightmap appends its wire form to the payload.
proof fn lemma_heightmaps_snoc(hs: Seq<Heightmap>, p: Seq<u8>, h: Heightmap, b: Seq<u8>)
    requires
        heightmaps_payload_ok(hs, p),
        h.heightmap_bytes_ok(b),
    ensures
        heightmaps_payload_ok(hs.push(h), p + b),
    decreases hs.len(),
{
    if hs.len() == 0 {
        assert(p + b =~= b);
        assert(hs.push(h)[0] == h);
        assert(hs.push(h).drop_first() =~= hs);
        assert(b =~= b + Seq::<u8>::empty());
        assert(h.heightmap_bytes_ok(b) && b == b + Seq::<u8>::empty() && heightmaps_payload_ok(
            hs.push(h).drop_first(),
            Seq::<u8>::empty(),
        ));
        assert(heightmaps_payload_ok(hs.push(h), b));
    } else {
        assert(hs.push(h)[0] == hs[0]);
        assert(hs.push(h).drop_first() =~= hs.drop_first().push(h));
        let (b0, rest) = choose|b0: Seq<u8>, rest: Seq<u8>|
            hs[0].heightmap_bytes_ok(b0) && p == b0 + rest && heightmaps_payload_ok(
                hs.drop_first(),
                rest,
            );
        lemma_heightmaps_snoc(hs.drop_first(), rest, h, b);
        assert(p + b =~= b0 + (rest + b));
        assert(hs[0].heightmap_bytes_ok(b0) && p + b == b0 + (rest + b) && heightmaps_payload_ok(
            hs.push(h).drop_first(),
            rest + b,
        ));
    }
}

/// All heightmaps of the list fit the 9-bit wire width.
pub open spec fn heightmaps_wf(hs: Seq<Heightmap>) -> bool {
    forall|i: int| 0 <= i < hs.len() ==> (#[trigger] hs[i]).wf()
}

/// The chunk portion of a chunk-data packet: a prefixed array of
/// heightmaps, the chunk's section data, and a prefixed array of block
/// entity bytes.
#[derive(Debug, Clone)]
pub struct ChunkData {
    pub heightmap: PrefixedArray<Heightmap>,
    pub data: Chunk,
    pub block_entities: PrefixedArray<u8>,
}

impl ChunkData {
    /// Everything in the chunk data fits its wire width.
    pub open spec fn wf(&self) -> bool {
        &&& heightmaps_wf(self.heightmap.0@)
        &&& self.data.wf()
    }

    /// The exact wire layout of the chunk data.
    pub open spec fn chunk_data_bytes_ok(&self, r: Seq<u8>) -> bool {
        exists|hp: Seq<u8>, cp: Seq<u8>|
            {
                &&& heightmaps_payload_ok(self.heightmap.0@, hp)
                &&& chunk_payload_ok(self.data.sections@, cp)
                &&& cp.len() <= 0x7fffffff
                &&& r == varint_encoding(self.heightmap.0@.len() as u32) + hp + varint_encoding(
                    (cp.len() as i32) as u32,
                ) + cp + self.block_entities.encoding()
            }
    }

    /// Writes the chunk data: heightmap count and heightmaps, section data,
    /// then block entities.  Fails exactly when some part exceeds its length
    /// prefix's capacity.
    pub fn write(&self) -> (r: Result<Vec<u8>, WriteError>)
        requires
            self.wf(),
        ensures
            r matches Ok(out) ==> self.chunk_data_bytes_ok(out@),
            r is Err ==> ({
                ||| self.heightmap.0@.len() > 0x7fffffff
                ||| (exists|cp: Seq<u8>|
                    chunk_payload_ok(self.data.sections@, cp) && cp.len() > 0x7fffffff)
                ||| !self.block_entities.encodable()
            }),
    {
        if self.heightmap.0.len() > 0x7fffffff {
            return Err(WriteError::TooLong);
        }
        let (head, head_len) = crate::varint::write_varint(self.heightmap.0.len() as i32).unwrap();
        let mut out: Vec<u8> = Vec::new();
        out.extend_from_slice(vstd::slice::slice_subrange(head.as_slice(), 0, head_len));
        let ghost prefix = out@;
        let mut j: usize = 0;
        let mut heights_payload: Vec<u8> = Vec::new();
        while j < self.heightmap.0.len()
            invariant
                self.wf(),
                0 <= j <= self.heightmap.0@.len(),
                heightmaps_payload_ok(self.heightmap.0@.take(j as int), heights_payload@),
            decreases self.heightmap.0@.len() - j,
        {
            let ghost pre = heights_payload@;
            let h = &self.heightmap.0[j];
            let piece = h.write();
            heights_payload.extend_from_slice(piece.as_slice());
            proof {
                lemma_heightmaps_snoc(self.heightmap.0@.take(j as int), pre, *h, piece@);
                assert(self.heightmap.0@.take(j + 1) =~= self.heightmap.0@.take(j as int).push(
                    self.heightmap.0@[j as int],
                ));
                assert(heights_payload@ == pre + piece@);
                assert(heightmaps_payload_ok(
                    self.heightmap.0@.take(j as int).push(*h),
                    pre + piece@,
                ));
                assert(heightmaps_payload_ok(self.heightmap.0@.take(j + 1), heights_payload@));
            }
            j = j + 1;
        }
        proof {
            assert(self.heightmap.0@.take(self.heightmap.0@.len() as int) =~= self.heightmap.0@);
        }
        out.extend_from_slice(heights_payload.as_slice());
        let chunk_bytes = match self.data.write() {
            Ok(b) => b,
            Err(e) => {
                return Err(e);
            },
        };
        out.extend_from_slice(chunk_bytes.as_slice());
        let entities_bytes = match self.block_entities.write() {
            Ok(b) => b,
            Err(e) => {
                return Err(e);
            },
        };
        out.extend_from_slice(entities_bytes.as_slice());
        proof {
            let cp = choose|payload: Seq<u8>|
                chunk_payload_ok(self.data.sections@, payload) && payload.len() <= 0x7fffffff
                    && chunk_bytes@ == crate::varint::varint_encoding(
                    (payload.len() as i32) as u32,
                ) + payload;
            assert((self.heightmap.0@.len() as i32) as u32 == self.heightmap.0@.len() as u32);
            assert(out@ =~= varint_encoding(self.heightmap.0@.len() as u32) + heights_payload@
                + varint_encoding((cp.len() as i32) as u32) + cp + self.block_entities.encoding());
        }
        Ok(out)
    }
}

/// The lighting portion of a chunk-data packet.
#[derive(Debug, Clone)]
pub struct LightData {
    pub sky_light_mask: BitSet,
    pub block_light_mask: BitSet,
    pub empty_sky_light_mask: BitSet,
    pub empty_block_light_mask: BitSet,
    pub sky_lights: PrefixedArray<Vec<u8>>,
    pub block_lights: PrefixedArray<Vec<u8>>,
}


impl Readable for LightData {
    open spec fn decodable(buf: Seq<u8>) -> bool {
        let b1 = buf.skip(<BitSet as Readable>::decoded_len(buf));
        let b2 = b1.skip(<BitSet as Readable>::decoded_len(b1));
        let b3 = b2.skip(<BitSet as Readable>::decoded_len(b2));
        let b4 = b3.skip(<BitSet as Readable>::decoded_len(b3));
        let b5 = b4.skip(<PrefixedArray<Vec<u8>> as Readable>::decoded_len(b4));
        &&& <BitSet as Readable>::decodable(buf)
        &&& <BitSet as Readable>::decodable(b1)
        &&& <BitSet as Readable>::decodable(b2)
        &&& <BitSet as Readable>::decodable(b3)
        &&& <PrefixedArray<Vec<u8>> as Readable>::decodable(b4)
        &&& <PrefixedArray<Vec<u8>> as Readable>::decodable(b5)
    }

    open spec fn decoded_len(buf: Seq<u8>) -> int {
        let b1 = buf.skip(<BitSet as Readable>::decoded_len(buf));
        let b2 = b1.skip(<BitSet as Readable>::decoded_len(b1));
        let b3 = b2.skip(<BitSet as Readable>::decoded_len(b2));
        let b4 = b3.skip(<BitSet as Readable>::decoded_len(b3));
        let b5 = b4.skip(<PrefixedArray<Vec<u8>> as Readable>::decoded_len(b4));
        <BitSet as Readable>::decoded_len(buf) + <BitSet as Readable>::decoded_len(b1) + <
        BitSet as Readable>::decoded_len(b2) + <BitSet as Readable>::decoded_len(b3) + <
        PrefixedArray<Vec<u8>> as Readable>::decoded_len(b4) + <PrefixedArray<
            Vec<u8>,
        > as Readable>::decoded_len(b5)
    }

    open spec fn decodes_to(buf: Seq<u8>, v: &Self) -> bool {
        let b1 = buf.skip(<BitSet as Readable>::decoded_len(buf));
        let b2 = b1.skip(<BitSet as Readable>::decoded_len(b1));
        let b3 = b2.skip(<BitSet as Readable>::decoded_len(b2));
        let b4 = b3.skip(<BitSet as Readable>::decoded_len(b3));
        let b5 = b4.skip(<PrefixedArray<Vec<u8>> as Readable>::decoded_len(b4));
        &&& <BitSet as Readable>::decodes_to(buf, &v.sky_light_mask)
        &&& <BitSet as Readable>::decodes_to(b1, &v.block_light_mask)
        &&& <BitSet as Readable>::decodes_to(b2, &v.empty_sky_light_mask)
        &&& <BitSet as Readable>::decodes_to(b3, &v.empty_block_light_mask)
        &&& <PrefixedArray<Vec<u8>> as Readable>::decodes_to(b4, &v.sky_lights)
        &&& <PrefixedArray<Vec<u8>> as Readable>::decodes_to(b5, &v.block_lights)
    }

    open spec fn decode_incomplete(buf: Seq<u8>) -> bool {
        let b1 = buf.skip(<BitSet as Readable>::decoded_len(buf));
        let b2 = b1.skip(<BitSet as Readable>::decoded_len(b1));
        let b3 = b2.skip(<BitSet as Readable>::decoded_len(b2));
        let b4 = b3.skip(<BitSet as Readable>::decoded_len(b3));
        let b5 = b4.skip(<PrefixedArray<Vec<u8>> as Readable>::decoded_len(b4));
        if !<BitSet as Readable>::decodable(buf) {
            <BitSet as Readable>::decode_incomplete(buf)
        } else if !<BitSet as Readable>::decodable(b1) {
            <BitSet as Readable>::decode_incomplete(b1)
        } else if !<BitSet as Readable>::decodable(b2) {
            <BitSet as Readable>::decode_incomplete(b2)
        } else if !<BitSet as Readable>::decodable(b3) {
            <BitSet as Readable>::decode_incomplete(b3)
        } else if !<PrefixedArray<Vec<u8>> as Readable>::decodable(b4) {
            <PrefixedArray<Vec<u8>> as Readable>::decode_incomplete(b4)
        } else {
            <PrefixedArray<Vec<u8>> as Readable>::decode_incomplete(b5)
        }
    }

    fn read(buffer: &[u8]) -> (r: Result<(Self, usize), ReadError>) {
        let mut reader = BufferReader::new(buffer);
        let sky_light_mask: BitSet = match reader.read() {
            Ok(v) => v,
            Err(e) => {
                return Err(e);
            },
        };
        let block_light_mask: BitSet = match reader.read() {
            Ok(v) => v,
            Err(e) => {
                return Err(e);
            },
        };
        let empty_sky_light_mask: BitSet = match reader.read() {
            Ok(v) => v,
            Err(e) => {
                return Err(e);
            },
        };
        let empty_block_light_mask: BitSet = match reader.read() {
            Ok(v) => v,
            Err(e) => {
                return Err(e);
            },
        };
        let sky_lights: PrefixedArray<Vec<u8>> = match reader.read() {
            Ok(v) => v,
            Err(e) => {
                return Err(e);
            },
        };
        let block_lights: PrefixedArray<Vec<u8>> = match reader.read() {
            Ok(v) => v,
            Err(e) => {
                return Err(e);
            },
        };
        Ok((
            LightData {
                sky_light_mask,
                block_light_mask,
                empty_sky_light_mask,
                empty_block_light_mask,
                sky_lights,
                block_lights,
            },
            reader.consumed(),
        ))
    }
}

impl Writeable for LightData {
    open spec fn encoding(&self) -> Seq<u8> {
        self.sky_light_mask.encoding() + self.block_light_mask.encoding()
            + self.empty_sky_light_mask.encoding() + self.empty_block_light_mask.encoding()
            + self.sky_lights.encoding() + self.block_lights.encoding()
    }

    open spec fn encodable(&self) -> bool {
        &&& self.sky_light_mask.encodable()
        &&& self.block_light_mask.encodable()
        &&& self.empty_sky_light_mask.encodable()
        &&& self.empty_block_light_mask.encodable()
        &&& self.sky_lights.encodable()
        &&& self.block_lights.encodable()
    }

    fn write(&self) -> (r: Result<Vec<u8>, WriteError>) {
        let mut out: Vec<u8> = Vec::new();
        let piece = match self.sky_light_mask.write() {
            Ok(b) => b,
            Err(e) => {
                return Err(e);
            },
        };
        out.extend_from_slice(piece.as_slice());
        let piece = match self.block_light_mask.write() {
            Ok(b) => b,
            Err(e) => {
                return Err(e);
            },
        };
        out.extend_from_slice(piece.as_slice());
        let piece = match self.empty_sky_light_mask.write() {
            Ok(b) => b,
            Err(e) => {
                return Err(e);
            },
        };
        out.extend_from_slice(piece.as_slice());
        let piece = match self.empty_block_light_mask.write() {
            Ok(b) => b,
            Err(e) => {
                return Err(e);
            },
        };
        out.extend_from_slice(piece.as_slice());
        let piece = match self.sky_lights.write() {
            Ok(b) => b,
            Err(e) => {
                return Err(e);
            },
        };
        out.extend_from_slice(piece.as_slice());
        let piece = match self.block_lights.write() {
            Ok(b) => b,
            Err(e) => {
                return Err(e);
            },
        };
        out.extend_from_slice(piece.as_slice());
        proof {
            assert(out@ =~= self.encoding());
        }
        Ok(out)
    }
}

/// One chunk with its lighting, the world snapshot payload.
#[derive(Debug, Clone)]
pub struct ClientboundChunkDataAndLightPacket {
    pub chunk_x: i32,
    pub chunk_z: i32,
    pub chunk_data: ChunkData,
    pub light_data: LightData,
}

impl ClientboundChunkDataAndLightPacket {
    pub const PACKET_ID: i32 = 0x27;

    /// Writes the whole snapshot: coordinates, chunk data, then lighting.
    /// Fails exactly when the chunk data or the light data exceeds a length
    /// prefix's capacity.
    pub fn write(&self) -> (r: Result<Vec<u8>, WriteError>)
        requires
            self.chunk_data.wf(),
        ensures
            r matches Ok(out) ==> exists|cd: Seq<u8>|
                self.chunk_data.chunk_data_bytes_ok(cd) && out@ == self.chunk_x.encoding()
                    + self.chunk_z.encoding() + cd + self.light_data.encoding(),
            r is Err ==> ({
                ||| self.chunk_data.heightmap.0@.len() > 0x7fffffff
                ||| (exists|cp: Seq<u8>|
                    chunk_payload_ok(self.chunk_data.data.sections@, cp) && cp.len()
                        > 0x7fffffff)
                ||| !self.chunk_data.block_entities.encodable()
                ||| !self.light_data.encodable()
            }),
    {
        let mut out: Vec<u8> = Vec::new();
        let piece = match self.chunk_x.write() {
            Ok(b) => b,
            Err(e) => {
                return Err(e);
            },
        };
        out.extend_from_slice(piece.as_slice());
        let piece = match self.chunk_z.write() {
            Ok(b) => b,
            Err(e) => {
                return Err(e);
            },
        };
        out.extend_from_slice(piece.as_slice());
        let cd_bytes = match self.chunk_data.write() {
            Ok(b) => b,
            Err(e) => {
                return Err(e);
            },
        };
        out.extend_from_slice(cd_bytes.as_slice());
        let piece = match self.light_data.write() {
            Ok(b) => b,
            Err(e) => {
                return Err(e);
            },
        };
        out.extend_from_slice(piece.as_slice());
        proof {
            assert(out@ =~= self.chunk_x.encoding() + self.chunk_z.encoding() + cd_bytes@
                + self.light_data.encoding());
        }
        Ok(out)
    }
}

impl Packet for ClientboundChunkDataAndLightPacket {
    open spec fn spec_id(&self) -> i32 {
        0x27
    }

    fn id(&self) -> (r: VarInt) {
        VarInt(0x27)
    }
}

} // verus!
