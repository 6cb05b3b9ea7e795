use draco_bf6::interop::dx12_shared_handle::{DestructionBitfield, SharedHandleReader, I24};

#[test]
fn test_i24_sign_extension() {
    let test_cases = vec![
        (0x000000, 0i32),
        (0x7FFFFF, 8_388_607i32),
        (0x800000, -8_388_608i32),
        (0xFFFFFF, -1i32),
        (0x400000, 4_194_304i32),
    ];
    for (u24, expected) in test_cases {
        let i24 = I24::from_u24(u24);
        let result = i24.to_i32();
        assert_eq!(result, expected, "i24 sign-extension mismatch for 0x{:06X}", u24);
    }
}

#[test]
fn test_destruction_bitfield_occupancy() {
    let bitfield = DestructionBitfield {
        events: 0xFF_00_00_00_00_00_00_00u128,
        timestamp_frame: 100,
    };
    assert_eq!(bitfield.events.count_ones(), 8);
    assert_eq!(bitfield.occupancy(), 8);
}

#[test]
fn test_torsion_snapshot_parsing() {
    let reader = SharedHandleReader::new("test_handle").unwrap();
    let bitfield = DestructionBitfield {
        events: 0x00FF_00FFu128,
        timestamp_frame: 42,
    };
    let snapshot = reader.snapshot_to_torsion_array(bitfield, 42);
    assert_eq!(snapshot.frame_count, 42);
    assert_eq!(snapshot.z_manifold_i24.len(), 269);
    assert_eq!(snapshot.bitfield_occupancy, 16);
}

// ---------------------------------------------------------------------------
// Further cases of the library's own.
// ---------------------------------------------------------------------------

#[test]
fn i24_from_u24_masks_high_bits() {
    assert_eq!(I24::from_u24(0x1234_5678).to_i32(), 0x34_5678);
    assert_eq!(I24::from_u24(0xFF80_0000).to_i32(), -0x80_0000);
    assert_eq!(I24::from_u24(2_000_000).to_i32(), 2_000_000);
}

#[test]
fn popcount_of_full_and_high_bits() {
    let all = DestructionBitfield { events: u128::MAX, timestamp_frame: 0 };
    assert_eq!(all.occupancy(), 128);
    let high = DestructionBitfield { events: 1u128 << 127, timestamp_frame: 0 };
    assert_eq!(high.occupancy(), 1);
    let none = DestructionBitfield { events: 0, timestamp_frame: 0 };
    assert_eq!(none.occupancy(), 0);
}

#[test]
fn snapshot_coordinates_follow_event_slots() {
    let reader = SharedHandleReader::new("h").unwrap();
    let bitfield = DestructionBitfield { events: 0b101u128 | (1u128 << 127), timestamp_frame: 7 };
    let snapshot = reader.snapshot_to_torsion_array(bitfield, 3);
    let values: Vec<i32> = snapshot.z_manifold_i24.iter().map(|c| c.to_i32()).collect();
    for (i, v) in values.iter().enumerate() {
        let slot = i % 128;
        let active = slot == 0 || slot == 2 || slot == 127;
        assert_eq!(*v, if active { 2_000_000 } else { 0 }, "coordinate {}", i);
    }
    assert_eq!(snapshot.bitfield_occupancy, 3);
    assert_eq!(snapshot.timestamp_us, 7_000);
    assert_eq!(snapshot.frame_count, 3);
}

#[test]
fn reader_produces_the_ten_frame_test_pattern() {
    // Frames 1-3: none, 4-6: 32 events, 7-9: 64 events, 10: 32 scattered.
    let mut reader = SharedHandleReader::new("BF6_Destruction_Global_0").unwrap();
    assert_eq!(reader.handle_name(), "BF6_Destruction_Global_0");
    assert_eq!(reader.frame_count(), 0);
    let mut counts = Vec::new();
    for _ in 0..20 {
        let bf = reader.wait_and_read_frame().unwrap();
        assert_eq!(bf.timestamp_frame, reader.frame_count());
        counts.push(bf.occupancy());
    }
    assert_eq!(
        counts,
        vec![0, 0, 0, 32, 32, 32, 64, 64, 64, 32, 0, 0, 0, 32, 32, 32, 64, 64, 64, 32]
    );
    assert_eq!(reader.frame_count(), 20);
}
