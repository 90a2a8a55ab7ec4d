//! The per-connection dispatch core: one step of the serve loop, from the
//! byte accumulator to a decoded packet, and the state transitions that
//! decoded packets cause.
//!
//! The embedding program owns the socket: it reads bytes, feeds them to the
//! reader, calls `dispatch_next` in a loop, runs its handlers on each
//! decoded packet (advancing the state through `handle_packet_state`), and
//! writes back frames built by `encode_frame`.  Everything it decides with
//! is decided here.

use vstd::prelude::*;
use vstd::slice::slice_subrange;

use crate::bytebuf::bm_as_slice;
use crate::network::{frame_body, frame_ready, frame_rest, PacketReader, PacketReaderError};
use crate::packets::handshake::HandshakeIntent;
use crate::packets::{
    decode_packet, decoder_incomplete, decoder_len, decoder_ok, decoder_yields, PacketDecoder,
    PacketsRegistry, ServerboundPacket,
};
use crate::protocol::{can_transition, ProtocolState, ReadError, WriteError};
use crate::registry::spec_key;
use crate::varint::{
    is_varint_boundary, varint_encoding, varint_has_boundary, varint_i32, varint_len,
    varint_value_prefix, write_varint, VarInt, VarIntError,
};

verus! {

/// Errors that can occur with the client-server connection; transport-level
/// failures live with the embedding program that owns the socket.
#[derive(Debug, Clone, Copy, PartialEq, Eq, Structural)]
pub enum ConnectionError {
    /// Something went wrong while framing the packets.
    PacketReaderError(PacketReaderError),
    /// Something went wrong while decoding a packet's body.
    ReadError(ReadError),
}

/// What one dispatch step produced.
#[derive(Debug)]
pub enum DispatchOutcome {
    /// No complete frame is buffered yet; feed more bytes and call again.
    NoFrame,
    /// A frame arrived whose id is not registered for the current state.
    /// The frame is discarded and the connection continues; `first` is true
    /// the first time this id is seen on this connection, so the caller
    /// logs it once and repeats are suppressed.
    UnknownId { id: VarInt, first: bool },
    /// A registered packet's body was incomplete; the frame is skipped and
    /// the connection continues.
    Skipped { id: VarInt },
    /// A whole packet was decoded.
    Packet { id: VarInt, packet: ServerboundPacket },
    /// A structural violation: the connection must close.
    Fatal { error: ConnectionError },
}

/// The packet payload of the frame at the front of `s`: the body minus its
/// leading packet-id VarInt.
pub open spec fn frame_payload(s: Seq<u8>) -> Seq<u8> {
    frame_body(s).skip(varint_len(frame_body(s)))
}

/// The id of the frame at the front of `s`.
pub open spec fn frame_id(s: Seq<u8>) -> i32 {
    varint_i32(frame_body(s))
}

/// Whether `ids` already holds `id`.
fn contains_varint(ids: &Vec<VarInt>, id: VarInt) -> (r: bool)
    ensures
        r == ids@.contains(id),
{
    let mut i: usize = 0;
    while i < ids.len()
        invariant
            0 <= i <= ids@.len(),
            forall|k: int| 0 <= k < i ==> ids@[k] != id,
        decreases ids@.len() - i,
    {
        if ids[i].0 == id.0 {
            return true;
        }
        i = i + 1;
    }
    false
}

/// One step of a connection's serve loop: extract the next frame, resolve
/// its id against the registry under the current state, and decode its
/// body.  An unknown id is non-fatal: the frame is dropped, remembered in
/// `observed_unknown` so the caller logs each distinct id once, and the
/// loop continues.  A registered packet whose body is incomplete is
/// skipped.  Structural violations are fatal.
#[verifier::spinoff_prover]
#[verifier::rlimit(60)]
pub fn dispatch_next(
    reader: &mut PacketReader,
    registry: &PacketsRegistry,
    state: ProtocolState,
    observed_unknown: &mut Vec<VarInt>,
) -> (r: DispatchOutcome)
    ensures
        r is NoFrame ==> final(observed_unknown)@ == old(observed_unknown)@ && ({
            let s = old(reader)@;
            ||| (!varint_has_boundary(s) && s.len() < 5 && final(reader)@ == s)
            ||| (varint_has_boundary(s) && varint_i32(s) >= 0 && varint_len(s) + varint_i32(s)
                > s.len() && final(reader)@ == s)
            ||| (frame_ready(s) && !varint_has_boundary(frame_body(s)) && frame_body(s).len() < 5
                && final(reader)@ == frame_rest(s))
        }),
        r matches DispatchOutcome::UnknownId { id, first } ==> ({
            let s = old(reader)@;
            &&& frame_ready(s)
            &&& id.0 == frame_id(s)
            &&& !registry@.contains_key(spec_key(state, id))
            &&& final(reader)@ == frame_rest(s)
            &&& (first <==> !old(observed_unknown)@.contains(id))
            &&& final(observed_unknown)@ == if old(observed_unknown)@.contains(id) {
                old(observed_unknown)@
            } else {
                old(observed_unknown)@.push(id)
            }
        }),
        r matches DispatchOutcome::Skipped { id } ==> ({
            let s = old(reader)@;
            &&& frame_ready(s)
            &&& id.0 == frame_id(s)
            &&& registry@.contains_key(spec_key(state, id))
            &&& !decoder_ok(registry@[spec_key(state, id)], frame_payload(s))
            &&& decoder_incomplete(registry@[spec_key(state, id)], frame_payload(s))
            &&& final(reader)@ == frame_rest(s)
            &&& final(observed_unknown)@ == old(observed_unknown)@
        }),
        r matches DispatchOutcome::Packet { id, packet } ==> ({
            let s = old(reader)@;
            &&& frame_ready(s)
            &&& id.0 == frame_id(s)
            &&& registry@.contains_key(spec_key(state, id))
            &&& decoder_ok(registry@[spec_key(state, id)], frame_payload(s))
            &&& decoder_yields(
                registry@[spec_key(state, id)],
                frame_payload(s),
                packet,
                decoder_len(registry@[spec_key(state, id)], frame_payload(s)),
            )
            &&& final(reader)@ == frame_rest(s)
            &&& final(observed_unknown)@ == old(observed_unknown)@
        }),
        r matches DispatchOutcome::Fatal { error } ==> final(observed_unknown)@ == old(
            observed_unknown,
        )@ && ({
            let s = old(reader)@;
            ||| (error matches ConnectionError::PacketReaderError(_) && (varint_has_boundary(s)
                ==> varint_i32(s) < 0 || !varint_has_boundary(frame_body(s))))
            ||| (error matches ConnectionError::ReadError(_) && frame_ready(s)
                && registry@.contains_key(spec_key(state, VarInt(frame_id(s)))) && !decoder_ok(
                registry@[spec_key(state, VarInt(frame_id(s)))],
                frame_payload(s),
            ) && !decoder_incomplete(registry@[spec_key(state, VarInt(frame_id(s)))],
                frame_payload(s),
            ))
        }),
        // an id that is not registered for the current state never ends the
        // connection: the outcome is `UnknownId`, not `Fatal`
        (frame_ready(old(reader)@) && varint_has_boundary(frame_body(old(reader)@))
            && !registry@.contains_key(
            spec_key(state, VarInt(frame_id(old(reader)@))),
        )) ==> r is UnknownId,
{
    let frame = match reader.try_next_packet() {
        Ok(None) => {
            return DispatchOutcome::NoFrame;
        },
        Ok(Some(f)) => f,
        Err(e) => {
            return DispatchOutcome::Fatal { error: ConnectionError::PacketReaderError(e) };
        },
    };
    let (id, body) = frame;
    let decoder = match registry.get(state, id) {
        Some(d) => *d,
        None => {
            let first = !contains_varint(observed_unknown, id);
            if first {
                observed_unknown.push(id);
            }
            return DispatchOutcome::UnknownId { id, first };
        },
    };
    let body_slice = bm_as_slice(&body);
    proof {
        let s = old(reader)@;
        assert(body_slice@ == frame_payload(s));
        assert(id.0 == frame_id(s));
        assert(VarInt(frame_id(s)) == id);
        assert(registry@.contains_key(spec_key(state, id)));
        assert(decoder == registry@[spec_key(state, id)]);
    }
    match decode_packet(&decoder, body_slice) {
        Ok((packet, n)) => {
            proof {
                let s = old(reader)@;
                assert(decoder_yields(
                    registry@[spec_key(state, id)],
                    frame_payload(s),
                    packet,
                    decoder_len(registry@[spec_key(state, id)], frame_payload(s)),
                ));
            }
            DispatchOutcome::Packet { id, packet }
        },
        Err(ReadError::VarIntError(VarIntError::Incomplete)) => DispatchOutcome::Skipped { id },
        Err(ReadError::Incomplete) => DispatchOutcome::Skipped { id },
        Err(e) => DispatchOutcome::Fatal { error: ConnectionError::ReadError(e) },
    }
}

/// The state a decoded packet moves the connection to: a handshake branches
/// to status or login by its intent, a login acknowledgement enters
/// configuration, finishing configuration enters play, and every other
/// packet leaves the state alone.  Only packets arriving in their own state
/// move it.
pub open spec fn spec_next_state(state: ProtocolState, packet: ServerboundPacket) -> ProtocolState {
    match packet {
        ServerboundPacket::Handshake(p) => {
            if state == ProtocolState::Handshake {
                match p.intent {
                    HandshakeIntent::Status => ProtocolState::Status,
                    HandshakeIntent::Login => ProtocolState::Login,
                    HandshakeIntent::Transfer => state,
                }
            } else {
                state
            }
        },
        ServerboundPacket::LoginAcknowledged(_) => {
            if state == ProtocolState::Login {
                ProtocolState::Configuration
            } else {
                state
            }
        },
        ServerboundPacket::AcknowledgeFinish(_) => {
            if state == ProtocolState::Configuration {
                ProtocolState::Play
            } else {
                state
            }
        },
        _ => state,
    }
}

/// Law: whatever packet arrives in whatever state, the state either stays
/// put or moves along an edge of the protocol's transition graph; dispatch
/// can never leave the legal flow.
pub proof fn lemma_next_state_legal(state: ProtocolState, packet: ServerboundPacket)
    ensures
        spec_next_state(state, packet) == state || can_transition(
            state,
            spec_next_state(state, packet),
        ),
{
}

/// Applies the state transition a decoded packet causes (see
/// `spec_next_state`).  State is owned by the connection and only protocol
/// logic moves it; the transport layer never calls this.
pub fn handle_packet_state(state: ProtocolState, packet: &ServerboundPacket) -> (r: ProtocolState)
    ensures
        r == spec_next_state(state, *packet),
        r == state || can_transition(state, r),
{
    match packet {
        ServerboundPacket::Handshake(p) => {
            if state == ProtocolState::Handshake {
                match p.intent {
                    HandshakeIntent::Status => ProtocolState::Status,
                    HandshakeIntent::Login => ProtocolState::Login,
                    HandshakeIntent::Transfer => state,
                }
            } else {
                state
            }
        },
        ServerboundPacket::LoginAcknowledged(_) => {
            if state == ProtocolState::Login {
                ProtocolState::Configuration
            } else {
                state
            }
        },
        ServerboundPacket::AcknowledgeFinish(_) => {
            if state == ProtocolState::Configuration {
                ProtocolState::Play
            } else {
                state
            }
        },
        _ => state,
    }
}

/// Builds one outbound frame: a VarInt total length, the packet-id VarInt,
/// then the payload.  Fails exactly when the body exceeds the length
/// prefix's capacity.
pub fn encode_frame(id: VarInt, payload: &[u8]) -> (r: Result<Vec<u8>, WriteError>)
    ensures
        r matches Ok(out) ==> ({
            let body = varint_encoding(id.0 as u32) + payload@;
            &&& body.len() <= 0x7fffffff
            &&& out@ == varint_encoding((body.len() as i32) as u32) + body
        }),
        r is Err ==> varint_encoding(id.0 as u32).len() + payload@.len() > 0x7fffffff,
{
    let (id_buf, id_len) = write_varint(id.0).unwrap();
    let mut body: Vec<u8> = Vec::new();
    body.extend_from_slice(slice_subrange(id_buf.as_slice(), 0, id_len));
    body.extend_from_slice(payload);
    if body.len() > 0x7fffffff {
        return Err(WriteError::TooLong);
    }
    let (len_buf, len_len) = write_varint(body.len() as i32).unwrap();
    let mut out: Vec<u8> = Vec::new();
    out.extend_from_slice(slice_subrange(len_buf.as_slice(), 0, len_len));
    out.extend_from_slice(body.as_slice());
    Ok(out)
}

/// Decoding a VarInt looks only at the bytes up to its terminator, so any
/// extension of the buffer decodes the same.
proof fn lemma_varint_prefix_stable(s: Seq<u8>, t: Seq<u8>, n: int)
    requires
        is_varint_boundary(s, n),
        s.len() <= t.len(),
        forall|i: int| 0 <= i < s.len() ==> s[i] == t[i],
    ensures
        is_varint_boundary(t, n),
        varint_value_prefix(t, n) == varint_value_prefix(s, n),
{
    lemma_varint_value_prefix_agree(s, t, n);
}

/// `varint_value_prefix` reads only the first `n` bytes.
proof fn lemma_varint_value_prefix_agree(s: Seq<u8>, t: Seq<u8>, n: int)
    requires
        n <= s.len() <= t.len(),
        forall|i: int| 0 <= i < s.len() ==> s[i] == t[i],
    ensures
        varint_value_prefix(t, n) == varint_value_prefix(s, n),
    decreases n,
{
    if n > 0 {
        lemma_varint_value_prefix_agree(s, t, n - 1);
    }
}

/// Law, frame reassembly: a frame built by `encode_frame`'s contract is
/// extracted whole by the framer's contract — it is ready, its id and
/// payload come back exactly, and nothing is left in the accumulator.
pub proof fn lemma_frame_round_trip(id: VarInt, payload: Seq<u8>)
    requires
        varint_encoding(id.0 as u32).len() + payload.len() <= 0x7fffffff,
    ensures
        ({
            let body = varint_encoding(id.0 as u32) + payload;
            let frame = varint_encoding((body.len() as i32) as u32) + body;
            &&& frame_ready(frame)
            &&& frame_body(frame) == body
            &&& frame_rest(frame) == Seq::<u8>::empty()
            &&& varint_has_boundary(body)
            &&& frame_id(frame) == id.0
            &&& frame_payload(frame) == payload
        }),
{
    let body = varint_encoding(id.0 as u32) + payload;
    let blen = (body.len() as i32);
    let frame = varint_encoding((blen as u32) as u32) + body;
    let e = varint_encoding(blen as u32);
    crate::varint::lemma_varint_round_trip(blen);
    crate::varint::lemma_varint_boundary_unique(e, e.len() as int);
    lemma_varint_prefix_stable(e, frame, e.len() as int);
    crate::varint::lemma_varint_boundary_unique(frame, e.len() as int);
    assert(varint_i32(frame) == blen);
    assert(blen >= 0);
    assert(frame_body(frame) =~= body);
    assert(frame_rest(frame) =~= Seq::<u8>::empty());
    let ei = varint_encoding(id.0 as u32);
    crate::varint::lemma_varint_round_trip(id.0);
    crate::varint::lemma_varint_boundary_unique(ei, ei.len() as int);
    lemma_varint_prefix_stable(ei, body, ei.len() as int);
    crate::varint::lemma_varint_boundary_unique(body, ei.len() as int);
    assert(varint_i32(body) == id.0);
    assert(frame_payload(frame) =~= payload);
}


/// Builds the decoder registry the server starts with: every serverbound
/// packet of every state, keyed by `(state, id)`.
pub fn build_packets_registry() -> (r: PacketsRegistry)
    ensures
        r@ == Map::<u64, PacketDecoder>::empty().insert(
            spec_key(ProtocolState::Handshake, VarInt(0x00)),
            PacketDecoder::Handshake,
        ).insert(spec_key(ProtocolState::Status, VarInt(0x00)), PacketDecoder::StatusRequest).insert(
            spec_key(ProtocolState::Status, VarInt(0x01)),
            PacketDecoder::PingRequest,
        ).insert(spec_key(ProtocolState::Login, VarInt(0x00)), PacketDecoder::LoginStart).insert(
            spec_key(ProtocolState::Login, VarInt(0x03)),
            PacketDecoder::LoginAcknowledged,
        ).insert(
            spec_key(ProtocolState::Configuration, VarInt(0x00)),
            PacketDecoder::ClientInformation,
        ).insert(
            spec_key(ProtocolState::Configuration, VarInt(0x02)),
            PacketDecoder::PluginMessage,
        ).insert(
            spec_key(ProtocolState::Configuration, VarInt(0x03)),
            PacketDecoder::AcknowledgeFinish,
        ).insert(
            spec_key(ProtocolState::Configuration, VarInt(0x07)),
            PacketDecoder::KnownPacks,
        ).insert(spec_key(ProtocolState::Play, VarInt(0x00)), PacketDecoder::ConfirmTeleportation),
{
    proof {
        assert forall|s1: ProtocolState, i1: VarInt, s2: ProtocolState, i2: VarInt|
            spec_key(s1, i1) == spec_key(s2, i2) implies s1 == s2 && i1 == i2 by {
            crate::registry::lemma_spec_key_injective(s1, i1, s2, i2);
        }
    }
    let mut registry: PacketsRegistry = crate::registry::ProtocolRegistry::new();
    crate::packets::handshake::setup_registry(&mut registry);
    crate::packets::status::setup_registry(&mut registry);
    crate::packets::login::setup_registry(&mut registry);
    crate::packets::configuration::setup_registry(&mut registry);
    crate::packets::play::setup_registry(&mut registry);
    registry
}

} // verus!

