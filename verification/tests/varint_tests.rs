use kasumi::varint::{read_varint, write_varint, VarIntError};

fn round_trip(value: i32) {
    let (buf, len) = write_varint(value).unwrap();
    assert!(len >= 1 && len <= 5, "encoding length out of range for {value}");
    let (decoded, consumed) = read_varint(&buf[..len]).unwrap();
    assert_eq!(decoded, value, "round trip failed for value: {value}");
    assert_eq!(consumed, len, "buffer not fully consumed for value: {value}");
}

#[test]
fn test_varint_zero() {
    let (buf, len) = write_varint(0).unwrap();
    assert_eq!(&buf[..len], &[0x00]);
    assert_eq!(read_varint(&buf[..len]).unwrap().0, 0);
}

#[test]
fn test_varint_positive() {
    let (buf, len) = write_varint(300).unwrap();
    assert_eq!(&buf[..len], &[0xAC, 0x02]);
    assert_eq!(read_varint(&buf[..len]).unwrap().0, 300);
}

#[test]
fn test_varint_negative() {
    let (buf, len) = write_varint(-1).unwrap();
    assert_eq!(&buf[..len], &[0xFF, 0xFF, 0xFF, 0xFF, 0x0F]);
    assert_eq!(read_varint(&buf[..len]).unwrap().0, -1);
}

#[test]
fn test_varint_too_many_bytes() {
    // 6 bytes, all with the continuation bit set
    let buf = [0x80, 0x80, 0x80, 0x80, 0x80, 0x80];
    assert!(matches!(read_varint(&buf), Err(VarIntError::TooManyBytes)));
}

#[test]
fn test_varint_incomplete() {
    // Not enough bytes to complete the VarInt (stops after 2)
    let buf = [0x80, 0x80];
    assert!(matches!(read_varint(&buf), Err(VarIntError::Incomplete)));
}

#[test]
fn varint_test_varint_zero() {
    round_trip(0);
}

#[test]
fn test_varint_positive_values() {
    for &val in &[1, 127, 128, 255, 300, 16384, i32::MAX] {
        round_trip(val);
    }
}

#[test]
fn test_varint_negative_values() {
    for &val in &[-1, -127, -128, -255, -300, -16384, i32::MIN] {
        round_trip(val);
    }
}

#[test]
fn test_malformed_input_too_short() {
    // EOF in the middle of a VarInt
    let buf = [0x81];
    assert!(matches!(read_varint(&buf), Err(VarIntError::Incomplete)));
}

#[test]
fn test_malformed_input_too_long() {
    // More than 5 bytes with the first five continuation bits set
    let buf = [0xFF, 0xFF, 0xFF, 0xFF, 0xFF, 0x01];
    assert!(matches!(read_varint(&buf), Err(VarIntError::TooManyBytes)));
}

#[test]
fn test_varint_round_trip_representative() {
    for &val in &[0, 1, 127, 128, 255, 300, 16384, 2_147_483_647, -1, -128, -2_147_483_648] {
        round_trip(val);
    }
}

#[test]
fn test_varint_known_encodings() {
    let (buf, len) = write_varint(127).unwrap();
    assert_eq!(&buf[..len], &[0x7F]);
    let (buf, len) = write_varint(128).unwrap();
    assert_eq!(&buf[..len], &[0x80, 0x01]);
    let (buf, len) = write_varint(255).unwrap();
    assert_eq!(&buf[..len], &[0xFF, 0x01]);
    let (buf, len) = write_varint(2_147_483_647).unwrap();
    assert_eq!(&buf[..len], &[0xFF, 0xFF, 0xFF, 0xFF, 0x07]);
    let (buf, len) = write_varint(-2_147_483_648).unwrap();
    assert_eq!(&buf[..len], &[0x80, 0x80, 0x80, 0x80, 0x08]);
}

#[test]
fn test_varint_non_canonical_decodes() {
    // a redundant continuation byte still decodes within the 5-byte limit
    let buf = [0x80, 0x00];
    let (value, consumed) = read_varint(&buf).unwrap();
    assert_eq!(value, 0);
    assert_eq!(consumed, 2);
}
