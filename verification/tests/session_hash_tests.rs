use draco_bf6::physics::session_hash::{
    check_hash_continuity_bits, fnv1a_update, manifold_hash_from_bits, normalize_negative_zero_f32_bits,
    normalize_negative_zero_f64_bits, state_hash_from_bits,
};

/// Reference 64-bit FNV-1a over a byte stream.
fn fnv1a(bytes: &[u8]) -> u64 {
    let mut h: u64 = 0xcbf2_9ce4_8422_2325;
    for &b in bytes {
        h ^= b as u64;
        h = h.wrapping_mul(0x0000_0100_0000_01b3);
    }
    h
}

fn bits64(m: &[f64]) -> Vec<u64> {
    m.iter().map(|x| x.to_bits()).collect()
}

fn bits32(m: &[f32]) -> Vec<u32> {
    m.iter().map(|x| x.to_bits()).collect()
}

#[test]
fn fnv1a_update_known_values() {
    assert_eq!(fnv1a_update(0xcbf2_9ce4_8422_2325, b""), 0xcbf2_9ce4_8422_2325);
    assert_eq!(fnv1a_update(0xcbf2_9ce4_8422_2325, b"a"), 0xaf63_dc4c_8601_ec8c);
}

#[test]
fn manifold_hash_exact_values() {
    assert_eq!(manifold_hash_from_bits(&[], 0, 0), 0xe604_823a_2490_29bf);
    assert_eq!(manifold_hash_from_bits(&bits64(&[1.5, -0.0]), 7, 2), 0xb37f_8990_a59f_1e15);
}

#[test]
fn state_hash_exact_value() {
    assert_eq!(state_hash_from_bits(&bits32(&[1.0]), &bits32(&[-0.0]), 1, 0x0100, 1), 0x6550_145c_fc05_c21b);
}

#[test]
fn manifold_hash_matches_fnv1a_of_the_byte_stream() {
    let mut manifold = [0.0f64; 269];
    manifold[0] = 1.5;
    manifold[5] = -0.0;
    let mut bytes = Vec::new();
    bytes.extend_from_slice(&100u64.to_le_bytes());
    bytes.push(1u8);
    for &z in manifold.iter() {
        let z = if z == 0.0 { 0.0 } else { z };
        bytes.extend_from_slice(&z.to_bits().to_le_bytes());
    }
    assert_eq!(manifold_hash_from_bits(&bits64(&manifold), 100, 1), fnv1a(&bytes));
}

#[test]
fn state_hash_matches_fnv1a_of_the_byte_stream() {
    let mut z = [0.0f32; 269];
    let mut s = [0.0f32; 269];
    z[3] = 0.25;
    s[7] = -0.0;
    let mut bytes = Vec::new();
    bytes.extend_from_slice(&12u64.to_le_bytes());
    bytes.extend_from_slice(&0x0100u16.to_le_bytes());
    bytes.push(5u8);
    for &v in z.iter().chain(s.iter()) {
        let v = if v == 0.0 { 0.0 } else { v };
        bytes.extend_from_slice(&v.to_bits().to_le_bytes());
    }
    assert_eq!(state_hash_from_bits(&bits32(&z), &bits32(&s), 12, 0x0100, 5), fnv1a(&bytes));
}

#[test]
fn test_compute_h_session_determinism() {
    let mut a = [0.0f64; 269];
    let mut b = [0.0f64; 269];
    a[0] = 1.5;
    b[0] = 1.5;
    assert_eq!(manifold_hash_from_bits(&bits64(&a), 100, 1), manifold_hash_from_bits(&bits64(&b), 100, 1));
}

#[test]
fn test_compute_h_session_divergence() {
    let m = bits64(&[0.0f64; 269]);
    assert_ne!(manifold_hash_from_bits(&m, 100, 1), manifold_hash_from_bits(&m, 101, 1));
}

#[test]
fn test_compute_h_session_regime_sensitivity() {
    let m = bits64(&[0.0f64; 269]);
    assert_ne!(manifold_hash_from_bits(&m, 100, 1), manifold_hash_from_bits(&m, 100, 5));
}

#[test]
fn test_compute_h_session_negative_zero_normalization() {
    let pos = [0.0f64; 269];
    let mut neg = [0.0f64; 269];
    neg[0] = -0.0;
    assert_eq!(manifold_hash_from_bits(&bits64(&pos), 100, 1), manifold_hash_from_bits(&bits64(&neg), 100, 1));
}

#[test]
fn test_hash_includes_frame_count() {
    let z = bits32(&[0.0f32; 269]);
    let s = bits32(&[0.0f32; 269]);
    assert_ne!(state_hash_from_bits(&z, &s, 0, 0x0100, 1), state_hash_from_bits(&z, &s, 1, 0x0100, 1));
}

#[test]
fn normalization_of_bit_patterns() {
    assert_eq!(normalize_negative_zero_f64_bits((-0.0f64).to_bits()), 0.0f64.to_bits());
    assert_eq!(normalize_negative_zero_f64_bits(1.5f64.to_bits()), 1.5f64.to_bits());
    assert_eq!(normalize_negative_zero_f32_bits((-0.0f32).to_bits()), 0);
    assert_eq!(normalize_negative_zero_f32_bits((-2.0f32).to_bits()), (-2.0f32).to_bits());
}

#[test]
fn hash_continuity_after_frame_advance() {
    let z = bits32(&[0.5f32; 269]);
    let s = bits32(&[0.0f32; 269]);
    let h = state_hash_from_bits(&z, &s, 41, 0x0100, 1);
    assert!(check_hash_continuity_bits(&z, &s, 42, 0x0100, 1, h));
    assert!(!check_hash_continuity_bits(&z, &s, 43, 0x0100, 1, h));
    let h0 = state_hash_from_bits(&z, &s, 0, 0x0100, 1);
    assert!(check_hash_continuity_bits(&z, &s, 0, 0x0100, 1, h0));
    assert!(check_hash_continuity_bits(&z, &s, 1, 0x0100, 1, h0));
}
