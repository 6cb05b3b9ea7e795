//! Session hash binding over the bit patterns of the physics state.
//!
//! Floating-point state enters as raw IEEE 754 bit patterns. Negative zero
//! is mapped to positive zero before hashing, so two states that differ
//! only in the sign of a zero hash alike. The hash is 64-bit FNV-1a over
//! the little-endian bytes of every value, in a fixed order: the frame
//! count first (temporal binding), then the protocol version where there
//! is one, the regime, and the state words. Both the byte order and the
//! algorithm are fixed, so equal states hash alike on every machine.
use vstd::bytes::{
    spec_u16_to_le_bytes, spec_u32_to_le_bytes, spec_u64_to_le_bytes, u16_to_le_bytes,
    u32_to_le_bytes, u64_to_le_bytes,
};
use vstd::prelude::*;

verus! {

/// Bit pattern of an `f64` negative zero.
pub const F64_NEGATIVE_ZERO: u64 = 0x8000_0000_0000_0000;

/// Bit pattern of an `f32` negative zero.
pub const F32_NEGATIVE_ZERO: u32 = 0x8000_0000;

/// An `f64` bit pattern with negative zero replaced by positive zero.
pub open spec fn f64_zero_normalized(bits: u64) -> u64 {
    if bits == F64_NEGATIVE_ZERO {
        0
    } else {
        bits
    }
}

/// An `f32` bit pattern with negative zero replaced by positive zero.
pub open spec fn f32_zero_normalized(bits: u32) -> u32 {
    if bits == F32_NEGATIVE_ZERO {
        0
    } else {
        bits
    }
}

/// Map the bit pattern of an `f64` negative zero to positive zero.
pub fn normalize_negative_zero_f64_bits(bits: u64) -> (r: u64)
    ensures
        r == f64_zero_normalized(bits),
{
    if bits == 0x8000_0000_0000_0000 {
        0
    } else {
        bits
    }
}

/// Map the bit pattern of an `f32` negative zero to positive zero.
pub fn normalize_negative_zero_f32_bits(bits: u32) -> (r: u32)
    ensures
        r == f32_zero_normalized(bits),
{
    if bits == 0x8000_0000 {
        0
    } else {
        bits
    }
}

/// FNV-1a 64-bit offset basis.
pub const FNV_OFFSET_BASIS: u64 = 0xcbf2_9ce4_8422_2325;

/// FNV-1a 64-bit prime.
pub const FNV_PRIME: u64 = 0x0000_0100_0000_01b3;

/// FNV-1a state after absorbing `bytes`, starting from state `h`: each byte
/// is XORed in and the state multiplied by the prime modulo 2^64.
pub open spec fn fnv1a_bytes(h: u64, bytes: Seq<u8>) -> u64
    decreases bytes.len(),
{
    if bytes.len() == 0 {
        h
    } else {
        (fnv1a_bytes(h, bytes.drop_last()) ^ (bytes.last() as u64)).wrapping_mul(FNV_PRIME)
    }
}

/// FNV-1a state after absorbing a sequence of byte strings in order.
pub open spec fn fnv1a_writes(h: u64, writes: Seq<Seq<u8>>) -> u64
    decreases writes.len(),
{
    if writes.len() == 0 {
        h
    } else {
        fnv1a_bytes(fnv1a_writes(h, writes.drop_last()), writes.last())
    }
}

/// 64-bit FNV-1a of a sequence of byte strings, taken as one byte stream.
pub open spec fn fnv1a64(writes: Seq<Seq<u8>>) -> u64 {
    fnv1a_writes(FNV_OFFSET_BASIS, writes)
}

/// Absorbs `bytes` into the FNV-1a state `h`.
pub fn fnv1a_update(h: u64, bytes: &[u8]) -> (r: u64)
    ensures
        r == fnv1a_bytes(h, bytes@),
{
    let mut state = h;
    let mut i: usize = 0;
    while i < bytes.len()
        invariant
            i <= bytes.len(),
            state == fnv1a_bytes(h, bytes@.subrange(0, i as int)),
        decreases bytes.len() - i,
    {
        proof {
            assert(bytes@.subrange(0, i as int + 1).drop_last() =~= bytes@.subrange(0, i as int));
        }
        state = (state ^ (bytes[i] as u64)).wrapping_mul(0x0000_0100_0000_01b3);
        i = i + 1;
    }
    assert(bytes@.subrange(0, i as int) =~= bytes@);
    state
}

/// Absorbs one more write into a running hash.
fn absorb(h: u64, bytes: &[u8], Ghost(written): Ghost<Seq<Seq<u8>>>) -> (r: u64)
    requires
        h == fnv1a64(written),
    ensures
        r == fnv1a64(written.push(bytes@)),
{
    assert(written.push(bytes@).drop_last() =~= written);
    fnv1a_update(h, bytes)
}

/// FNV-1a absorbs every byte the same way wherever it stands: one more
/// byte XORs into the state, which is then multiplied by the prime modulo
/// 2^64.
pub proof fn lemma_fnv1a_push(h: u64, bytes: Seq<u8>, b: u8)
    ensures
        fnv1a_bytes(h, bytes.push(b)) as int == (((fnv1a_bytes(h, bytes) ^ (b as u64)) as int)
            * 0x0000_0100_0000_01b3int) % 0x1_0000_0000_0000_0000int,
{
    assert(bytes.push(b).drop_last() =~= bytes);
}

/// Hashing a sequence of writes is hashing their concatenated bytes:
/// the split into writes does not matter.
pub proof fn lemma_fnv1a_append(h: u64, a: Seq<u8>, b: Seq<u8>)
    ensures
        fnv1a_bytes(h, a + b) == fnv1a_bytes(fnv1a_bytes(h, a), b),
    decreases b.len(),
{
    if b.len() == 0 {
        assert(a + b =~= a);
    } else {
        lemma_fnv1a_append(h, a, b.drop_last());
        assert((a + b).drop_last() =~= a + b.drop_last());
    }
}

/// Published FNV-1a 64 test vectors: the empty input hashes to the offset
/// basis 0xcbf29ce484222325 and "foobar" to 0x85944171f73967e8.
pub proof fn lemma_fnv1a_test_vectors()
    ensures
        fnv1a_bytes(0xcbf2_9ce4_8422_2325, Seq::empty()) == 0xcbf2_9ce4_8422_2325u64,
        fnv1a_bytes(
            0xcbf2_9ce4_8422_2325,
            seq![0x66u8, 0x6fu8, 0x6fu8, 0x62u8, 0x61u8, 0x72u8],
        ) == 0x8594_4171_f739_67e8u64,
{
    let p0 = Seq::<u8>::empty();
    let p1 = p0.push(0x66u8);
    lemma_fnv1a_push(0xcbf2_9ce4_8422_2325, p0, 0x66u8);
    assert(fnv1a_bytes(0xcbf2_9ce4_8422_2325, p0) == 0xcbf2_9ce4_8422_2325u64);
    assert((0xcbf2_9ce4_8422_2325u64 ^ 0x66u64) as int == 0xcbf29ce484222343int) by (bit_vector);
    assert((0xcbf29ce484222343int * 0x0000_0100_0000_01b3int) % 0x1_0000_0000_0000_0000int == 0xaf63db4c8601ead9int);
    let p2 = p1.push(0x6fu8);
    lemma_fnv1a_push(0xcbf2_9ce4_8422_2325, p1, 0x6fu8);
    assert(fnv1a_bytes(0xcbf2_9ce4_8422_2325, p1) == 0xaf63db4c8601ead9u64);
    assert((0xaf63db4c8601ead9u64 ^ 0x6fu64) as int == 0xaf63db4c8601eab6int) by (bit_vector);
    assert((0xaf63db4c8601eab6int * 0x0000_0100_0000_01b3int) % 0x1_0000_0000_0000_0000int == 0x8985907b541d342int);
    let p3 = p2.push(0x6fu8);
    lemma_fnv1a_push(0xcbf2_9ce4_8422_2325, p2, 0x6fu8);
    assert(fnv1a_bytes(0xcbf2_9ce4_8422_2325, p2) == 0x8985907b541d342u64);
    assert((0x8985907b541d342u64 ^ 0x6fu64) as int == 0x8985907b541d32dint) by (bit_vector);
    assert((0x8985907b541d32dint * 0x0000_0100_0000_01b3int) % 0x1_0000_0000_0000_0000int == 0xdcb27518fed9d577int);
    let p4 = p3.push(0x62u8);
    lemma_fnv1a_push(0xcbf2_9ce4_8422_2325, p3, 0x62u8);
    assert(fnv1a_bytes(0xcbf2_9ce4_8422_2325, p3) == 0xdcb27518fed9d577u64);
    assert((0xdcb27518fed9d577u64 ^ 0x62u64) as int == 0xdcb27518fed9d515int) by (bit_vector);
    assert((0xdcb27518fed9d515int * 0x0000_0100_0000_01b3int) % 0x1_0000_0000_0000_0000int == 0xdd120e790c2512afint);
    let p5 = p4.push(0x61u8);
    lemma_fnv1a_push(0xcbf2_9ce4_8422_2325, p4, 0x61u8);
    assert(fnv1a_bytes(0xcbf2_9ce4_8422_2325, p4) == 0xdd120e790c2512afu64);
    assert((0xdd120e790c2512afu64 ^ 0x61u64) as int == 0xdd120e790c2512ceint) by (bit_vector);
    assert((0xdd120e790c2512ceint * 0x0000_0100_0000_01b3int) % 0x1_0000_0000_0000_0000int == 0xcac165afa2fef40aint);
    let p6 = p5.push(0x72u8);
    lemma_fnv1a_push(0xcbf2_9ce4_8422_2325, p5, 0x72u8);
    assert(fnv1a_bytes(0xcbf2_9ce4_8422_2325, p5) == 0xcac165afa2fef40au64);
    assert((0xcac165afa2fef40au64 ^ 0x72u64) as int == 0xcac165afa2fef478int) by (bit_vector);
    assert((0xcac165afa2fef478int * 0x0000_0100_0000_01b3int) % 0x1_0000_0000_0000_0000int == 0x85944171f73967e8int);
    assert(p6 =~= seq![0x66u8, 0x6fu8, 0x6fu8, 0x62u8, 0x61u8, 0x72u8]);
}

/// The writes the manifold hash feeds the hasher.
pub open spec fn manifold_writes(frame_count: u64, regime: u8, words: Seq<u64>) -> Seq<Seq<u8>> {
    seq![spec_u64_to_le_bytes(frame_count), seq![regime]] + words.map_values(
        |w: u64| spec_u64_to_le_bytes(f64_zero_normalized(w)),
    )
}

/// Hash of a manifold given by the bit patterns of its `f64` coordinates.
pub open spec fn manifold_hash(frame_count: u64, regime: u8, words: Seq<u64>) -> u64 {
    fnv1a64(manifold_writes(frame_count, regime, words))
}

/// The writes the state hash feeds the hasher.
pub open spec fn state_writes(
    z: Seq<u32>,
    s: Seq<u32>,
    frame_count: u64,
    protocol_version: u16,
    regime: u8,
) -> Seq<Seq<u8>> {
    seq![
        spec_u64_to_le_bytes(frame_count),
        spec_u16_to_le_bytes(protocol_version),
        seq![regime],
    ] + z.map_values(|w: u32| spec_u32_to_le_bytes(f32_zero_normalized(w))) + s.map_values(
        |w: u32| spec_u32_to_le_bytes(f32_zero_normalized(w)),
    )
}

/// Hash of a state (Z and S given by the bit patterns of their `f32`s).
pub open spec fn state_hash(
    z: Seq<u32>,
    s: Seq<u32>,
    frame_count: u64,
    protocol_version: u16,
    regime: u8,
) -> u64 {
    fnv1a64(state_writes(z, s, frame_count, protocol_version, regime))
}

/// Absorbs the normalized little-endian bytes of each `f32` bit pattern.
fn absorb_f32_words(h: u64, words: &[u32], Ghost(written): Ghost<Seq<Seq<u8>>>) -> (r: u64)
    requires
        h == fnv1a64(written),
    ensures
        r == fnv1a64(
            written + words@.map_values(|w: u32| spec_u32_to_le_bytes(f32_zero_normalized(w))),
        ),
{
    let mut state = h;
    let mut i: usize = 0;
    while i < words.len()
        invariant
            i <= words.len(),
            state == fnv1a64(
                written + words@.subrange(0, i as int).map_values(
                    |w: u32| spec_u32_to_le_bytes(f32_zero_normalized(w)),
                ),
            ),
        decreases words.len() - i,
    {
        let ghost before = written + words@.subrange(0, i as int).map_values(
            |w: u32| spec_u32_to_le_bytes(f32_zero_normalized(w)),
        );
        let n = normalize_negative_zero_f32_bits(words[i]);
        let b = u32_to_le_bytes(n);
        state = absorb(state, b.as_slice(), Ghost(before));
        i = i + 1;
        assert(before.push(b@) =~= written + words@.subrange(0, i as int).map_values(
            |w: u32| spec_u32_to_le_bytes(f32_zero_normalized(w)),
        ));
    }
    assert(words@.subrange(0, i as int) =~= words@);
    state
}

/// H_session over a manifold given as `f64` bit patterns:
/// FNV-1a(frame_count, regime, Z), with negative zeros normalized.
pub fn manifold_hash_from_bits(manifold_bits: &[u64], frame_count: u64, regime: u8) -> (h: u64)
    ensures
        h == manifold_hash(frame_count, regime, manifold_bits@),
{
    let fb = u64_to_le_bytes(frame_count);
    let ghost w0 = Seq::<Seq<u8>>::empty();
    let mut state = absorb(0xcbf2_9ce4_8422_2325, fb.as_slice(), Ghost(w0));
    assert(w0.push(fb@) =~= seq![fb@]);
    let rb: [u8; 1] = [regime];
    proof {
        assert(rb@ =~= seq![regime]);
    }
    let ghost w1 = seq![fb@];
    state = absorb(state, &rb, Ghost(w1));
    let ghost start = seq![spec_u64_to_le_bytes(frame_count), seq![regime]];
    assert(seq![fb@].push(seq![regime]) =~= start);
    let mut i: usize = 0;
    while i < manifold_bits.len()
        invariant
            i <= manifold_bits.len(),
            start == seq![spec_u64_to_le_bytes(frame_count), seq![regime]],
            state == fnv1a64(
                start + manifold_bits@.subrange(0, i as int).map_values(
                    |w: u64| spec_u64_to_le_bytes(f64_zero_normalized(w)),
                ),
            ),
        decreases manifold_bits.len() - i,
    {
        let ghost before = start + manifold_bits@.subrange(0, i as int).map_values(
            |w: u64| spec_u64_to_le_bytes(f64_zero_normalized(w)),
        );
        let n = normalize_negative_zero_f64_bits(manifold_bits[i]);
        let b = u64_to_le_bytes(n);
        state = absorb(state, b.as_slice(), Ghost(before));
        i = i + 1;
        assert(before.push(b@) =~= start + manifold_bits@.subrange(0, i as int).map_values(
            |w: u64| spec_u64_to_le_bytes(f64_zero_normalized(w)),
        ));
    }
    assert(manifold_bits@.subrange(0, i as int) =~= manifold_bits@);
    assert(start + manifold_bits@.map_values(|w: u64| spec_u64_to_le_bytes(f64_zero_normalized(w)))
        =~= manifold_writes(frame_count, regime, manifold_bits@));
    state
}

/// H_t over a state given as `f32` bit patterns:
/// FNV-1a(frame_count, protocol_version, regime, Z, S), negative zeros normalized.
pub fn state_hash_from_bits(
    z_bits: &[u32],
    s_bits: &[u32],
    frame_count: u64,
    protocol_version: u16,
    regime: u8,
) -> (h: u64)
    ensures
        h == state_hash(z_bits@, s_bits@, frame_count, protocol_version, regime),
{
    let fb = u64_to_le_bytes(frame_count);
    let ghost w0 = Seq::<Seq<u8>>::empty();
    let mut state = absorb(0xcbf2_9ce4_8422_2325, fb.as_slice(), Ghost(w0));
    assert(w0.push(fb@) =~= seq![fb@]);
    let pb = u16_to_le_bytes(protocol_version);
    let ghost w1 = seq![fb@];
    state = absorb(state, pb.as_slice(), Ghost(w1));
    let rb: [u8; 1] = [regime];
    proof {
        assert(rb@ =~= seq![regime]);
        assert(seq![fb@].push(pb@) =~= seq![fb@, pb@]);
    }
    let ghost w2 = seq![fb@, pb@];
    state = absorb(state, &rb, Ghost(w2));
    let ghost head = seq![fb@, pb@, rb@];
    assert(seq![fb@, pb@].push(rb@) =~= head);
    state = absorb_f32_words(state, z_bits, Ghost(head));
    let ghost zs = z_bits@.map_values(|w: u32| spec_u32_to_le_bytes(f32_zero_normalized(w)));
    state = absorb_f32_words(state, s_bits, Ghost(head + zs));
    assert(head + zs + s_bits@.map_values(|w: u32| spec_u32_to_le_bytes(f32_zero_normalized(w)))
        =~= state_writes(z_bits@, s_bits@, frame_count, protocol_version, regime));
    state
}

/// The frame a stored hash was computed at: the frame counter has already
/// advanced past it, except at frame 0.
pub open spec fn hashed_frame(frame_count: u64) -> u64 {
    if frame_count > 0 {
        (frame_count - 1) as u64
    } else {
        0
    }
}

/// Hash continuity: the stored hash `h_t` equals the hash recomputed over
/// the state at the frame it was computed at.
pub open spec fn hash_continuity(
    z: Seq<u32>,
    s: Seq<u32>,
    frame_count: u64,
    protocol_version: u16,
    regime: u8,
    h_t: u64,
) -> bool {
    state_hash(z, s, hashed_frame(frame_count), protocol_version, regime) == h_t
}

/// Check hash continuity of a state given as `f32` bit patterns.
pub fn check_hash_continuity_bits(
    z_bits: &[u32],
    s_bits: &[u32],
    frame_count: u64,
    protocol_version: u16,
    regime: u8,
    h_t: u64,
) -> (ok: bool)
    ensures
        ok == hash_continuity(z_bits@, s_bits@, frame_count, protocol_version, regime, h_t),
{
    let hash_frame_count = if frame_count > 0 {
        frame_count - 1
    } else {
        0
    };
    let computed = state_hash_from_bits(z_bits, s_bits, hash_frame_count, protocol_version, regime);
    computed == h_t
}

/// A hash bound at frame `f`, checked after the frame counter advanced to
/// `f + 1`, passes the continuity check as long as Z, S, the protocol
/// version and the regime are unchanged.
pub proof fn lemma_bound_hash_passes_continuity(
    z: Seq<u32>,
    s: Seq<u32>,
    f: u64,
    protocol_version: u16,
    regime: u8,
)
    requires
        f < u64::MAX,
    ensures
        hash_continuity(
            z,
            s,
            (f + 1) as u64,
            protocol_version,
            regime,
            state_hash(z, s, f, protocol_version, regime),
        ),
{
}

/// Replacing a negative zero by positive zero leaves the manifold hash
/// unchanged.
pub proof fn lemma_manifold_hash_ignores_zero_sign(
    frame_count: u64,
    regime: u8,
    words: Seq<u64>,
    i: int,
)
    requires
        0 <= i < words.len(),
        words[i] == F64_NEGATIVE_ZERO,
    ensures
        manifold_hash(frame_count, regime, words) == manifold_hash(
            frame_count,
            regime,
            words.update(i, 0),
        ),
{
    assert(manifold_writes(frame_count, regime, words) =~= manifold_writes(
        frame_count,
        regime,
        words.update(i, 0),
    ));
}

/// Replacing a negative zero by positive zero, in Z or in S, leaves the
/// state hash unchanged.
pub proof fn lemma_state_hash_ignores_zero_sign(
    z: Seq<u32>,
    s: Seq<u32>,
    frame_count: u64,
    protocol_version: u16,
    regime: u8,
    i: int,
)
    ensures
        0 <= i < z.len() && z[i] == F32_NEGATIVE_ZERO ==> state_hash(
            z,
            s,
            frame_count,
            protocol_version,
            regime,
        ) == state_hash(z.update(i, 0), s, frame_count, protocol_version, regime),
        0 <= i < s.len() && s[i] == F32_NEGATIVE_ZERO ==> state_hash(
            z,
            s,
            frame_count,
            protocol_version,
            regime,
        ) == state_hash(z, s.update(i, 0), frame_count, protocol_version, regime),
{
    if 0 <= i < z.len() && z[i] == F32_NEGATIVE_ZERO {
        assert(state_writes(z, s, frame_count, protocol_version, regime) =~= state_writes(
            z.update(i, 0),
            s,
            frame_count,
            protocol_version,
            regime,
        ));
    }
    if 0 <= i < s.len() && s[i] == F32_NEGATIVE_ZERO {
        assert(state_writes(z, s, frame_count, protocol_version, regime) =~= state_writes(
            z,
            s.update(i, 0),
            frame_count,
            protocol_version,
            regime,
        ));
    }
}

/// The hash depends on the state only through its normalized bit patterns:
/// states whose normalized patterns agree hash alike.
pub proof fn lemma_manifold_hash_determined_by_normalized_bits(
    frame_count: u64,
    regime: u8,
    a: Seq<u64>,
    b: Seq<u64>,
)
    requires
        a.len() == b.len(),
        forall|i: int| 0 <= i < a.len() ==> f64_zero_normalized(a[i]) == f64_zero_normalized(b[i]),
    ensures
        manifold_hash(frame_count, regime, a) == manifold_hash(frame_count, regime, b),
{
    assert(manifold_writes(frame_count, regime, a) =~= manifold_writes(frame_count, regime, b));
}

/// The state hash depends on Z and S only through their normalized bit
/// patterns: states whose normalized patterns agree hash alike.
pub proof fn lemma_state_hash_determined_by_normalized_bits(
    z1: Seq<u32>,
    s1: Seq<u32>,
    z2: Seq<u32>,
    s2: Seq<u32>,
    frame_count: u64,
    protocol_version: u16,
    regime: u8,
)
    requires
        z1.len() == z2.len(),
        s1.len() == s2.len(),
        forall|i: int| 0 <= i < z1.len() ==> f32_zero_normalized(z1[i]) == f32_zero_normalized(z2[i]),
        forall|i: int| 0 <= i < s1.len() ==> f32_zero_normalized(s1[i]) == f32_zero_normalized(s2[i]),
    ensures
        state_hash(z1, s1, frame_count, protocol_version, regime) == state_hash(
            z2,
            s2,
            frame_count,
            protocol_version,
            regime,
        ),
{
    assert(state_writes(z1, s1, frame_count, protocol_version, regime) =~= state_writes(
        z2,
        s2,
        frame_count,
        protocol_version,
        regime,
    ));
}

} // verus!
