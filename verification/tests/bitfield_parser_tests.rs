use draco_bf6::physics::bitfield_parser::{
    BitfieldParser, DestructionI24, DestructionRingBuffer, ParsingError,
};

#[test]
fn test_i24_sign_extension_positive() {
    let event = DestructionI24([0x00, 0x00, 0x7F]);
    assert_eq!(event.to_i32(), 0x7F_0000);
}

#[test]
fn test_i24_sign_extension_negative() {
    let event = DestructionI24([0xFF, 0xFF, 0xFF]);
    assert_eq!(event.to_i32(), -1i32);
}

#[test]
fn test_i24_sign_extension_boundary() {
    let event = DestructionI24([0x00, 0x00, 0x80]);
    assert_eq!(event.to_i32(), -0x80_0000);
}

#[test]
fn test_i24_from_i32() {
    let val = 0x12_3456i32;
    let event = DestructionI24::from_i32(val);
    assert_eq!(event.to_i32(), val);
}

#[test]
fn test_i24_clamp_to_range() {
    let event_overflow = DestructionI24::from_i32(0x1000_0000);
    assert!(event_overflow.to_i32().abs() <= 0x80_0000);
}

#[test]
fn test_ring_buffer_push() {
    let mut rb = DestructionRingBuffer::new(4);
    let event = DestructionI24([0x00, 0x00, 0x7F]);
    assert!(rb.push(event).is_ok());
    assert_eq!(rb.occupancy(), 1);
}

#[test]
fn test_ring_buffer_overflow() {
    let mut rb = DestructionRingBuffer::new(2);
    let event = DestructionI24([0x00, 0x00, 0x7F]);
    rb.push(event).unwrap();
    rb.push(event).unwrap();
    assert_eq!(rb.push(event), Err(ParsingError::OccupancyOverflow));
}

#[test]
fn test_ring_buffer_clear() {
    let mut rb = DestructionRingBuffer::new(4);
    let event = DestructionI24([0x00, 0x00, 0x7F]);
    rb.push(event).unwrap();
    assert_eq!(rb.occupancy(), 1);
    rb.clear();
    assert_eq!(rb.occupancy(), 0);
}

// ---------------------------------------------------------------------------
// Further cases of the library's own.
// ---------------------------------------------------------------------------

fn bitfield_with(events: &[DestructionI24], occupancy: u32, parser: &BitfieldParser) -> Vec<u8> {
    let mut bitfield = vec![0u8; 128 * 3 + 4 + 4];
    for (i, event) in events.iter().enumerate() {
        bitfield[i * 3] = event.0[0];
        bitfield[i * 3 + 1] = event.0[1];
        bitfield[i * 3 + 2] = event.0[2];
    }
    bitfield[384..388].copy_from_slice(&occupancy.to_le_bytes());
    let crc = parser.crc32(&bitfield[0..388]);
    bitfield[388..392].copy_from_slice(&crc.to_le_bytes());
    bitfield
}

#[test]
fn i24_clamps_at_both_ends_and_roundtrips() {
    assert_eq!(DestructionI24::from_i32(i32::MAX).to_i32(), 0x7F_FFFF);
    assert_eq!(DestructionI24::from_i32(i32::MIN).to_i32(), -0x80_0000);
    assert_eq!(DestructionI24::from_i32(-1).0, [0xFF, 0xFF, 0xFF]);
    assert_eq!(DestructionI24::from_i32(0x7F_FFFF).0, [0xFF, 0xFF, 0x7F]);
    for v in [-0x80_0000, -12345, -1, 0, 1, 0x12_3456, 0x7F_FFFF] {
        assert_eq!(DestructionI24::from_i32(v).to_i32(), v);
    }
    let bytes = [0x34u8, 0x12, 0x85];
    let back = DestructionI24::from_i32(DestructionI24(bytes).to_i32());
    assert_eq!(back.0, bytes);
}

#[test]
fn crc32_exact_values() {
    let parser = BitfieldParser::new();
    assert_eq!(parser.crc32(&[]), 0);
    assert_eq!(parser.crc32(&[0]), 0xD202_EF8D);
    // Check value of the standard IEEE 802.3 CRC-32.
    assert_eq!(parser.crc32(b"123456789"), 0xCBF4_3926);
    assert_eq!(parser.crc32(&[0u8; 388]), 0x5685_ADBF);
}

#[test]
fn test_bitfield_parser_truncated() {
    let parser = BitfieldParser::new();
    let bitfield = vec![0u8; 100];
    assert_eq!(parser.parse_destruction_events(&bitfield).err(), Some(ParsingError::Truncated));
    let bitfield = vec![0u8; 391];
    assert_eq!(parser.parse_destruction_events(&bitfield).err(), Some(ParsingError::Truncated));
}

#[test]
fn test_bitfield_parser_occupancy_overflow() {
    let parser = BitfieldParser::new();
    let mut bitfield = vec![0u8; 392];
    bitfield[384] = 129;
    assert_eq!(
        parser.parse_destruction_events(&bitfield).err(),
        Some(ParsingError::OccupancyOverflow)
    );
}

#[test]
fn test_bitfield_parser_crc_mismatch() {
    let parser = BitfieldParser::new();
    let mut bitfield = vec![0u8; 392];
    bitfield[388..392].copy_from_slice(&[0xFF, 0xFF, 0xFF, 0xFF]);
    assert_eq!(parser.parse_destruction_events(&bitfield).err(), Some(ParsingError::CrcMismatch));
    // A valid bitfield with one corrupted byte is rejected as a whole.
    let events = [DestructionI24([1, 2, 3])];
    let mut good = bitfield_with(&events, 1, &parser);
    good[1] ^= 0x40;
    assert_eq!(parser.parse_destruction_events(&good).err(), Some(ParsingError::CrcMismatch));
}

#[test]
fn test_bitfield_parser_empty() {
    let parser = BitfieldParser::new();
    let bitfield = bitfield_with(&[], 0, &parser);
    let frame = parser.parse_destruction_events(&bitfield).unwrap();
    assert_eq!(frame.occupancy, 0);
    assert!(frame.events.is_empty());
}

#[test]
fn test_bitfield_parser_with_events() {
    let parser = BitfieldParser::new();
    let events = [
        DestructionI24([0x00, 0x00, 0x7F]),
        DestructionI24([0xFF, 0xFF, 0xFF]),
        DestructionI24([0x00, 0x80, 0x00]),
    ];
    let bitfield = bitfield_with(&events, 3, &parser);
    let frame = parser.parse_destruction_events(&bitfield).unwrap();
    assert_eq!(frame.occupancy, 3);
    let values: Vec<i32> = frame.events.iter().map(|e| e.to_i32()).collect();
    assert_eq!(values, vec![0x7F_0000, -1, 0x8000]);
    // Longer input: extra trailing bytes are ignored.
    let mut longer = bitfield.clone();
    longer.extend_from_slice(&[9, 9, 9]);
    assert_eq!(parser.parse_destruction_events(&longer).unwrap().occupancy, 3);
}

#[test]
fn ring_buffer_snapshot_and_capacity_zero() {
    let mut rb = DestructionRingBuffer::new(3);
    rb.push(DestructionI24([1, 0, 0])).unwrap();
    rb.push(DestructionI24([2, 0, 0])).unwrap();
    let snap: Vec<i32> = rb.snapshot().iter().map(|e| e.to_i32()).collect();
    assert_eq!(snap, vec![1, 2]);
    let mut empty = DestructionRingBuffer::new(0);
    assert_eq!(empty.push(DestructionI24([1, 0, 0])), Err(ParsingError::OccupancyOverflow));
    assert_eq!(empty.occupancy(), 0);
}
