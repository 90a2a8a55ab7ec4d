use kasumi::connection::encode_frame;
use kasumi::network::{PacketReader, PacketReaderError};
use kasumi::varint::VarInt;

#[test]
fn test_frame_reassembly() {
    // two consecutive well-formed frames, split into three arbitrary chunks
    let frame1 = encode_frame(VarInt(0x07), &[0xAA, 0xBB, 0xCC]).unwrap();
    let frame2 = encode_frame(VarInt(0x03), &[0x11, 0x22]).unwrap();
    let mut stream = Vec::new();
    stream.extend_from_slice(&frame1);
    stream.extend_from_slice(&frame2);

    // split mid-body of frame 1 and mid-length-prefix of frame 2
    let cut1 = 3; // inside frame 1's body
    let cut2 = frame1.len() + 1; // inside frame 2, after its length byte
    let chunks = [&stream[..cut1], &stream[cut1..cut2], &stream[cut2..]];

    let mut reader = PacketReader::with_capacity(64);
    let mut frames: Vec<(i32, Vec<u8>)> = Vec::new();
    for chunk in chunks {
        reader.extend_from_slice(chunk);
        loop {
            match reader.try_next_packet() {
                Ok(Some((id, body))) => frames.push((id.0, body[..].to_vec())),
                Ok(None) => break,
                Err(e) => panic!("unexpected framing error: {e:?}"),
            }
        }
    }

    assert_eq!(frames.len(), 2);
    assert_eq!(frames[0].0, 0x07);
    assert_eq!(&frames[0].1[..], &[0xAA, 0xBB, 0xCC]);
    assert_eq!(frames[1].0, 0x03);
    assert_eq!(&frames[1].1[..], &[0x11, 0x22]);
    // no residual bytes are left in the accumulator
    assert_eq!(reader.len(), 0);
}

#[test]
fn test_malformed_length_rejection() {
    // a declared length of -1 is a fatal error, not a silent skip
    let mut reader = PacketReader::with_capacity(16);
    reader.extend_from_slice(&[0xFF, 0xFF, 0xFF, 0xFF, 0x0F]);
    match reader.try_next_packet() {
        Err(PacketReaderError::MalformedPacket(l)) => assert_eq!(l, -1),
        other => panic!("expected MalformedPacket, got {other:?}"),
    }
}

#[test]
fn test_no_frame_yet_keeps_bytes() {
    let mut reader = PacketReader::with_capacity(16);
    // incomplete length prefix
    reader.extend_from_slice(&[0x80]);
    assert!(matches!(reader.try_next_packet(), Ok(None)));
    assert_eq!(reader.len(), 1);
    // complete length (4 bytes) but only part of the body
    reader.extend_from_slice(&[0x00, 0x00, 0x00]);
    // now the buffer holds [0x80, 0x00, 0x00, 0x00]: length 0 frame, then junk
    let frame = reader.try_next_packet().unwrap();
    // a zero-length frame has no room for a packet id and is dropped
    assert!(frame.is_none());
}

#[test]
fn test_partial_body_not_consumed() {
    let frame = encode_frame(VarInt(0x01), &[1, 2, 3, 4]).unwrap();
    let mut reader = PacketReader::with_capacity(16);
    reader.extend_from_slice(&frame[..frame.len() - 1]);
    assert!(matches!(reader.try_next_packet(), Ok(None)));
    assert_eq!(reader.len(), frame.len() - 1);
    reader.extend_from_slice(&frame[frame.len() - 1..]);
    let (id, body) = reader.try_next_packet().unwrap().unwrap();
    assert_eq!(id.0, 0x01);
    assert_eq!(&body[..], &[1, 2, 3, 4]);
    assert_eq!(reader.len(), 0);
}

#[test]
fn test_overlong_length_prefix_is_fatal() {
    let mut reader = PacketReader::with_capacity(16);
    reader.extend_from_slice(&[0x80, 0x80, 0x80, 0x80, 0x80, 0x80]);
    assert!(matches!(reader.try_next_packet(), Err(PacketReaderError::ReadError(_))));
}
