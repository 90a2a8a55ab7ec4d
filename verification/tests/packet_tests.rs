use kasumi::connection::{encode_frame, handle_packet_state};
use kasumi::identifier::Identifier;
use kasumi::packets::configuration::{KnownPack, ServerboundClientInformationPacket};
use kasumi::packets::handshake::{HandshakeIntent, ServerboundHandshakePacket};
use kasumi::packets::login::{ClientboundLoginSuccessPacket, Property, ServerboundLoginStartPacket};
use kasumi::packets::status::ClientboundPingResponsePacket;
use kasumi::packets::play::{BitSet, LightData};
use kasumi::packets::ServerboundPacket;
use kasumi::protocol::{
    read_string, write_string, PrefixedArray, ProtocolState, ReadError, Readable, WriteError,
    Writeable,
};
use kasumi::varint::VarInt;

#[test]
fn test_string_round_trip() {
    let bytes = write_string("hello").unwrap();
    assert_eq!(&bytes[..], &[5, b'h', b'e', b'l', b'l', b'o']);
    let (s, consumed) = read_string(&bytes).unwrap();
    assert_eq!(s, "hello");
    assert_eq!(consumed, 6);
}

#[test]
fn test_string_errors() {
    // negative length prefix
    let buf = [0xFF, 0xFF, 0xFF, 0xFF, 0x0F];
    assert!(matches!(read_string(&buf), Err(ReadError::MalformedBuffer)));
    // length above the maximum (40000)
    let buf = [0xC0, 0xB8, 0x02];
    assert!(matches!(read_string(&buf), Err(ReadError::TooManyBytes)));
    // missing payload bytes
    let buf = [5, b'h', b'i'];
    assert!(matches!(read_string(&buf), Err(ReadError::Incomplete)));
    // invalid UTF-8 payload
    let buf = [2, 0xFF, 0xFE];
    assert!(matches!(read_string(&buf), Err(ReadError::InvalidString)));
    // a string too long to write
    let long = "x".repeat(40000);
    assert!(matches!(write_string(&long), Err(WriteError::TooLong)));
}

#[test]
fn test_bool_lenient_decode() {
    let (v, n) = <bool as Readable>::read(&[0x01]).unwrap();
    assert!(v);
    assert_eq!(n, 1);
    // any byte that is not 0x01 reads as false
    let (v, _) = <bool as Readable>::read(&[0x02]).unwrap();
    assert!(!v);
    let (v, _) = <bool as Readable>::read(&[0x00]).unwrap();
    assert!(!v);
}

#[test]
fn test_uuid_round_trip() {
    let id: u128 = 0x0123_4567_89AB_CDEF_0011_2233_4455_6677;
    let bytes = id.write().unwrap();
    assert_eq!(bytes.len(), 16);
    assert_eq!(bytes[0], 0x01);
    assert_eq!(bytes[15], 0x77);
    let (back, consumed) = <u128 as Readable>::read(&bytes).unwrap();
    assert_eq!(back, id);
    assert_eq!(consumed, 16);
}

#[test]
fn test_option_encoding() {
    let some: Option<u8> = Some(5);
    assert_eq!(&some.write().unwrap()[..], &[1, 5]);
    let none: Option<u8> = None;
    assert_eq!(&none.write().unwrap()[..], &[0]);
    let (v, n) = <Option<u8> as Readable>::read(&[1, 9]).unwrap();
    assert_eq!(v, Some(9));
    assert_eq!(n, 2);
    let (v, n) = <Option<u8> as Readable>::read(&[0, 9]).unwrap();
    assert_eq!(v, None);
    assert_eq!(n, 1);
}

#[test]
fn test_identifier_read_with_namespace() {
    let bytes = write_string("game:stone").unwrap();
    let (id, consumed) = Identifier::read(&bytes).unwrap();
    assert_eq!(id.namespace, "game");
    assert_eq!(id.value, "stone");
    assert_eq!(consumed, bytes.len());
}

#[test]
fn test_identifier_read_bare_value() {
    let bytes = write_string("stone").unwrap();
    let (id, _) = Identifier::read(&bytes).unwrap();
    assert_eq!(id.namespace, "minecraft");
    assert_eq!(id.value, "stone");
}

#[test]
fn test_identifier_write() {
    let id = Identifier::minecraft("overworld");
    let bytes = id.write().unwrap();
    let expected = write_string("minecraft:overworld").unwrap();
    assert_eq!(bytes, expected);
}

#[test]
fn test_handshake_packet_read() {
    let mut body = Vec::new();
    body.extend_from_slice(&[0x82, 0x06]); // protocol version 770
    body.extend_from_slice(&write_string("localhost").unwrap());
    body.extend_from_slice(&[0x63, 0xDD]); // port 25565
    body.push(0x02); // intent: login
    let (packet, consumed) = ServerboundHandshakePacket::read(&body).unwrap();
    assert_eq!(packet.protocol_version.0, 770);
    assert_eq!(packet.server_address, "localhost");
    assert_eq!(packet.server_port, 25565);
    assert_eq!(packet.intent, HandshakeIntent::Login);
    assert_eq!(consumed, body.len());
}

#[test]
fn test_handshake_packet_write_read_round_trip() {
    let packet = ServerboundHandshakePacket {
        protocol_version: VarInt(770),
        server_address: "localhost".to_string(),
        server_port: 25565,
        intent: HandshakeIntent::Status,
    };
    let bytes = packet.write().unwrap();
    let (back, consumed) = ServerboundHandshakePacket::read(&bytes).unwrap();
    assert_eq!(consumed, bytes.len());
    assert_eq!(back.protocol_version.0, 770);
    assert_eq!(back.server_address, "localhost");
    assert_eq!(back.server_port, 25565);
    assert_eq!(back.intent, HandshakeIntent::Status);
}

#[test]
fn test_enum_unknown_variant() {
    // discriminant 5 names no handshake intent
    let r = HandshakeIntent::read(&[0x05]);
    assert!(matches!(r, Err(ReadError::UnknownVariant(5))));
}

#[test]
fn test_login_start_read() {
    let mut body = write_string("alice").unwrap();
    body.extend_from_slice(&[0; 15]);
    body.push(0x2A);
    let (packet, consumed) = ServerboundLoginStartPacket::read(&body).unwrap();
    assert_eq!(packet.name, "alice");
    assert_eq!(packet.id, 0x2A);
    assert_eq!(consumed, body.len());
}

#[test]
fn test_login_success_write() {
    let packet = ClientboundLoginSuccessPacket {
        id: 7,
        name: "alice".to_string(),
        properties: PrefixedArray(vec![Property {
            name: "textures".to_string(),
            value: "v".to_string(),
        }]),
    };
    let bytes = packet.write().unwrap();
    // 16 uuid bytes, then the name, then count 1, then the property
    assert_eq!(bytes[15], 7);
    assert_eq!(bytes[16], 5);
    assert_eq!(&bytes[17..22], b"alice");
    assert_eq!(bytes[22], 1);
    assert_eq!(bytes[23], 8);
    assert_eq!(&bytes[24..32], b"textures");
}

#[test]
fn test_known_packs_round_trip() {
    let pack = KnownPack {
        namespace: Identifier::minecraft("core"),
        id: "base".to_string(),
        version: "1.21.5".to_string(),
    };
    let bytes = pack.write().unwrap();
    let (back, consumed) = KnownPack::read(&bytes).unwrap();
    assert_eq!(consumed, bytes.len());
    assert_eq!(back.namespace.namespace, "minecraft");
    assert_eq!(back.namespace.value, "core");
    assert_eq!(back.id, "base");
    assert_eq!(back.version, "1.21.5");
}

#[test]
fn test_client_information_read() {
    let mut body = write_string("en_us").unwrap();
    body.push(12); // view distance
    body.push(0); // chat mode: enabled
    body.push(1); // chat colors
    body.push(0x7F); // skin parts
    body.push(1); // main hand: right
    body.push(0); // text filtering
    body.push(1); // server listings
    body.push(2); // particles: minimal
    let (packet, consumed) = ServerboundClientInformationPacket::read(&body).unwrap();
    assert_eq!(packet.locale, "en_us");
    assert_eq!(packet.view_distance, 12);
    assert!(packet.is_chat_colors);
    assert_eq!(packet.displayed_skin_parts, 0x7F);
    assert!(!packet.enable_text_filtering);
    assert!(packet.allow_server_listings);
    assert_eq!(consumed, body.len());
}

#[test]
fn test_ping_response_write() {
    let packet = ClientboundPingResponsePacket { value: 0x0102030405060708 };
    let bytes = packet.write().unwrap();
    assert_eq!(&bytes[..], &[1, 2, 3, 4, 5, 6, 7, 8]);
}

#[test]
fn test_encode_frame_layout() {
    let frame = encode_frame(VarInt(0x01), &[0xAB]).unwrap();
    // length 2 (id byte + payload byte), id 1, payload
    assert_eq!(&frame[..], &[0x02, 0x01, 0xAB]);
}

#[test]
fn test_state_transitions() {
    let handshake_login = ServerboundPacket::Handshake(ServerboundHandshakePacket {
        protocol_version: VarInt(770),
        server_address: "localhost".to_string(),
        server_port: 25565,
        intent: HandshakeIntent::Login,
    });
    assert_eq!(
        handle_packet_state(ProtocolState::Handshake, &handshake_login),
        ProtocolState::Login
    );
    let handshake_status = ServerboundPacket::Handshake(ServerboundHandshakePacket {
        protocol_version: VarInt(770),
        server_address: "localhost".to_string(),
        server_port: 25565,
        intent: HandshakeIntent::Status,
    });
    assert_eq!(
        handle_packet_state(ProtocolState::Handshake, &handshake_status),
        ProtocolState::Status
    );
    let login_ack = ServerboundPacket::LoginAcknowledged(
        kasumi::packets::login::ServerboundLoginAcknowledgedPacket {},
    );
    assert_eq!(handle_packet_state(ProtocolState::Login, &login_ack), ProtocolState::Configuration);
    let finish = ServerboundPacket::AcknowledgeFinish(
        kasumi::packets::configuration::ServerboundAcknowledgeFinishPacket {},
    );
    assert_eq!(handle_packet_state(ProtocolState::Configuration, &finish), ProtocolState::Play);
    // a packet outside its own state moves nothing
    assert_eq!(handle_packet_state(ProtocolState::Play, &login_ack), ProtocolState::Play);
}

#[test]
fn test_bitset_round_trip() {
    let set = BitSet(vec![0x0102030405060708, 0xFFFFFFFFFFFFFFFF]);
    let bytes = set.write().unwrap();
    assert_eq!(bytes[0], 2);
    assert_eq!(bytes.len(), 1 + 16);
    let (back, consumed) = BitSet::read(&bytes).unwrap();
    assert_eq!(consumed, bytes.len());
    assert_eq!(back.0, vec![0x0102030405060708, 0xFFFFFFFFFFFFFFFF]);
}

#[test]
fn test_light_data_round_trip() {
    let data = LightData {
        sky_light_mask: BitSet(vec![1]),
        block_light_mask: BitSet::empty(),
        empty_sky_light_mask: BitSet::empty(),
        empty_block_light_mask: BitSet(vec![2, 3]),
        sky_lights: PrefixedArray(vec![]),
        block_lights: PrefixedArray(vec![]),
    };
    let bytes = data.write().unwrap();
    let (back, consumed) = LightData::read(&bytes).unwrap();
    assert_eq!(consumed, bytes.len());
    assert_eq!(back.sky_light_mask.0, vec![1]);
    assert_eq!(back.empty_block_light_mask.0, vec![2, 3]);
    assert!(back.sky_lights.0.is_empty());
}
