use kasumi::connection::{build_packets_registry, dispatch_next, encode_frame, DispatchOutcome};
use kasumi::network::PacketReader;
use kasumi::packets::{PacketDecoder, ServerboundPacket};
use kasumi::protocol::ProtocolState;
use kasumi::registry::{ProtocolRegistry, RegistryError};
use kasumi::varint::VarInt;

#[test]
fn test_registry_state_scoping() {
    // the same packet id resolves differently under different states
    let mut registry: ProtocolRegistry<u32> = ProtocolRegistry::new();
    registry.register(ProtocolState::Status, VarInt(0x00), 1).unwrap();
    registry.register(ProtocolState::Login, VarInt(0x00), 2).unwrap();
    assert_eq!(registry.get(ProtocolState::Status, VarInt(0x00)), Some(&1));
    assert_eq!(registry.get(ProtocolState::Login, VarInt(0x00)), Some(&2));
    assert!(registry.get(ProtocolState::Play, VarInt(0x00)).is_none());
}

#[test]
fn test_dispatch_state_scoping() {
    // dispatching id 0x00 invokes only the decoder matching the current state
    let registry = build_packets_registry();
    let frame = encode_frame(VarInt(0x00), &[]).unwrap();

    let mut reader = PacketReader::with_capacity(64);
    let mut observed = Vec::new();
    reader.extend_from_slice(&frame);
    match dispatch_next(&mut reader, &registry, ProtocolState::Status, &mut observed) {
        DispatchOutcome::Packet { id, packet } => {
            assert_eq!(id.0, 0x00);
            assert!(matches!(packet, ServerboundPacket::StatusRequest(_)));
        },
        other => panic!("expected a packet, got {other:?}"),
    }

    let mut reader = PacketReader::with_capacity(64);
    reader.extend_from_slice(&frame);
    match dispatch_next(&mut reader, &registry, ProtocolState::Login, &mut observed) {
        DispatchOutcome::Packet { packet, .. } => {
            // in the login state the same id is the login start packet, whose
            // body here is incomplete, so it would not decode; an empty body
            // fails before that
            assert!(matches!(packet, ServerboundPacket::LoginStart(_)));
        },
        DispatchOutcome::Skipped { id } => assert_eq!(id.0, 0x00),
        other => panic!("expected login-start handling, got {other:?}"),
    }
}

#[test]
fn test_duplicate_registration_fails_loudly() {
    let mut registry: ProtocolRegistry<u32> = ProtocolRegistry::new();
    assert!(registry.register(ProtocolState::Status, VarInt(0x00), 1).is_ok());
    assert_eq!(
        registry.register(ProtocolState::Status, VarInt(0x00), 2),
        Err(RegistryError::DuplicateKey)
    );
    // the original value survives
    assert_eq!(registry.get(ProtocolState::Status, VarInt(0x00)), Some(&1));
}

#[test]
fn test_registry_remove() {
    let mut registry: ProtocolRegistry<u32> = ProtocolRegistry::new();
    registry.register(ProtocolState::Play, VarInt(0x05), 9).unwrap();
    registry.remove(ProtocolState::Play, VarInt(0x05));
    assert!(registry.get(ProtocolState::Play, VarInt(0x05)).is_none());
}

#[test]
fn test_unknown_id_tolerance() {
    // an id not registered for the current state does not end the connection
    let registry = build_packets_registry();
    let mut observed = Vec::new();
    let mut reader = PacketReader::with_capacity(64);

    let frame = encode_frame(VarInt(0x55), &[0x01]).unwrap();
    reader.extend_from_slice(&frame);
    match dispatch_next(&mut reader, &registry, ProtocolState::Play, &mut observed) {
        DispatchOutcome::UnknownId { id, first } => {
            assert_eq!(id.0, 0x55);
            assert!(first);
        },
        other => panic!("expected UnknownId, got {other:?}"),
    }

    // the second time the same unknown id is seen, logging is suppressed
    reader.extend_from_slice(&frame);
    match dispatch_next(&mut reader, &registry, ProtocolState::Play, &mut observed) {
        DispatchOutcome::UnknownId { id, first } => {
            assert_eq!(id.0, 0x55);
            assert!(!first);
        },
        other => panic!("expected UnknownId, got {other:?}"),
    }

    // and the connection keeps dispatching afterwards
    let good = encode_frame(VarInt(0x00), &[0x2A]).unwrap();
    reader.extend_from_slice(&good);
    match dispatch_next(&mut reader, &registry, ProtocolState::Play, &mut observed) {
        DispatchOutcome::Packet { packet, .. } => match packet {
            ServerboundPacket::ConfirmTeleportation(p) => assert_eq!(p.teleport_id.0, 0x2A),
            other => panic!("expected confirm teleportation, got {other:?}"),
        },
        other => panic!("expected a packet, got {other:?}"),
    }
}

#[test]
fn test_default_registry_contents() {
    let registry = build_packets_registry();
    assert_eq!(
        registry.get(ProtocolState::Handshake, VarInt(0x00)),
        Some(&PacketDecoder::Handshake)
    );
    assert_eq!(
        registry.get(ProtocolState::Configuration, VarInt(0x07)),
        Some(&PacketDecoder::KnownPacks)
    );
    assert!(registry.get(ProtocolState::Handshake, VarInt(0x01)).is_none());
}

#[test]
fn test_skip_incomplete_fatal_structural() {
    let registry = build_packets_registry();
    let mut observed = Vec::new();

    // a registered packet whose body is incomplete is skipped, not fatal
    let mut reader = PacketReader::with_capacity(64);
    let short = encode_frame(VarInt(0x00), &[0x80]).unwrap(); // teleport id cut mid-VarInt
    reader.extend_from_slice(&short);
    match dispatch_next(&mut reader, &registry, ProtocolState::Play, &mut observed) {
        DispatchOutcome::Skipped { id } => assert_eq!(id.0, 0x00),
        other => panic!("expected Skipped, got {other:?}"),
    }

    // a registered packet with a structural violation is fatal
    let mut reader = PacketReader::with_capacity(64);
    let mut body = vec![0x00]; // protocol version 0
    body.extend_from_slice(&[0x02, 0xFF, 0xFE]); // server address: invalid UTF-8
    let bad = encode_frame(VarInt(0x00), &body).unwrap();
    reader.extend_from_slice(&bad);
    match dispatch_next(&mut reader, &registry, ProtocolState::Handshake, &mut observed) {
        DispatchOutcome::Fatal { .. } => {},
        other => panic!("expected Fatal, got {other:?}"),
    }
}
