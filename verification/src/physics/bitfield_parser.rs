//! Bitfield parser: destruction events (packed I24 samples) with an
//! occupancy count and a CRC-32 checksum.
//!
//! Bitfield layout (392 bytes): 128 I24 samples of 3 bytes each, the
//! occupancy as a little-endian u32, then the CRC-32 of everything before
//! it as a little-endian u32. Only the first `occupancy` samples are events.
//! A bitfield whose CRC does not match is rejected as a whole.
use std::collections::VecDeque;
use vstd::prelude::*;

verus! {

/// Smallest I24 value.
pub const I24_MIN: i32 = -0x80_0000;

/// Largest I24 value.
pub const I24_MAX: i32 = 0x7F_FFFF;

/// Number of event slots in a bitfield.
pub const EVENT_SLOTS: usize = 128;

/// Size of a complete bitfield: event slots, occupancy, CRC-32.
pub const BITFIELD_SIZE: usize = 392;

/// Offset of the occupancy count.
pub const OCCUPANCY_OFFSET: usize = 384;

/// Offset of the CRC-32 checksum.
pub const CRC_OFFSET: usize = 388;

/// The IEEE 802.3 CRC-32 polynomial 0x04C11DB7 in reflected (bit-reversed)
/// form, as the least-significant-bit-first register uses it.
pub const CRC32_POLY: u32 = 0xEDB8_8320;

/// Unsigned value of three little-endian bytes.
pub open spec fn u24_of(b0: u8, b1: u8, b2: u8) -> int {
    b0 as int + 256 * (b1 as int) + 65536 * (b2 as int)
}

/// Two's complement reading of a 24-bit unsigned value.
pub open spec fn sign_extend_24(raw: int) -> int {
    if raw >= 0x80_0000 {
        raw - 0x100_0000
    } else {
        raw
    }
}

/// Value of three little-endian bytes read as a signed 24-bit integer.
pub open spec fn i24_value(b: [u8; 3]) -> int {
    sign_extend_24(u24_of(b[0], b[1], b[2]))
}

/// `v` clamped into the I24 range.
pub open spec fn clamp_i24(v: int) -> int {
    if v < I24_MIN {
        I24_MIN as int
    } else if v > I24_MAX {
        I24_MAX as int
    } else {
        v
    }
}

/// Destruction event in I24 format (3 bytes, little-endian, packed).
#[derive(Debug, Clone, Copy)]
pub struct DestructionI24(pub [u8; 3]);

proof fn lemma_sign_extend(b0: u8, b1: u8, b2: u8, val: i32)
    requires
        val == (((b2 as i32) << 16) | ((b1 as i32) << 8) | (b0 as i32)),
    ensures
        val == u24_of(b0, b1, b2),
        (val & 0x80_0000 != 0) == (val >= 0x80_0000),
        (val & 0x80_0000 != 0) ==> (val | (0xFF00_0000u32 as i32)) == val - 0x100_0000,
        (val & 0x80_0000 == 0) ==> (val & 0x00FF_FFFF) == val,
{
    assert(val == (b0 as i32) + 256 * (b1 as i32) + 65536 * (b2 as i32)) by (bit_vector)
        requires
            val == (((b2 as i32) << 16) | ((b1 as i32) << 8) | (b0 as i32)),
    ;
    assert(0 <= val < 0x100_0000) by (bit_vector)
        requires
            val == (((b2 as i32) << 16) | ((b1 as i32) << 8) | (b0 as i32)),
    ;
    assert((val & 0x80_0000 != 0) == (val >= 0x80_0000)) by (bit_vector)
        requires
            0 <= val < 0x100_0000,
    ;
    assert((val & 0x80_0000 != 0) ==> (val | (0xFF00_0000u32 as i32)) == val - 0x100_0000)
        by (bit_vector)
        requires
            0 <= val < 0x100_0000,
    ;
    assert((val & 0x80_0000 == 0) ==> (val & 0x00FF_FFFF) == val) by (bit_vector)
        requires
            0 <= val < 0x100_0000,
    ;
}

proof fn lemma_i24_bytes(c: i32)
    requires
        I24_MIN <= c <= I24_MAX,
    ensures
        u24_of((c & 0xFF) as u8, ((c >> 8) & 0xFF) as u8, ((c >> 16) & 0xFF) as u8) == (if c < 0 {
            c + 0x100_0000
        } else {
            c as int
        }),
{
    let b0 = (c & 0xFF) as u8;
    let b1 = ((c >> 8) & 0xFF) as u8;
    let b2 = ((c >> 16) & 0xFF) as u8;
    assert((b0 as i32) + 256 * (b1 as i32) + 65536 * (b2 as i32) == (if c < 0 {
        c + 0x100_0000
    } else {
        c as int
    })) by (bit_vector)
        requires
            -0x80_0000 <= c <= 0x7F_FFFF,
            b0 == (c & 0xFF) as u8,
            b1 == ((c >> 8) & 0xFF) as u8,
            b2 == ((c >> 16) & 0xFF) as u8,
    ;
}

impl DestructionI24 {
    /// The signed value the three bytes encode.
    pub open spec fn value(self) -> int {
        i24_value(self.0)
    }

    /// Unpack I24 to signed i32 with sign-extension.
    pub fn to_i32(&self) -> (v: i32)
        ensures
            v == self.value(),
            I24_MIN <= v <= I24_MAX,
    {
        let b0 = self.0[0];
        let b1 = self.0[1];
        let b2 = self.0[2];
        let val = ((b2 as i32) << 16) | ((b1 as i32) << 8) | (b0 as i32);
        proof {
            lemma_sign_extend(b0, b1, b2, val);
        }
        if val & 0x80_0000 != 0 {
            val | (0xFF00_0000u32 as i32)
        } else {
            val & 0x00FF_FFFF
        }
    }

    /// Create from i32 (clamped to I24 range).
    pub fn from_i32(val: i32) -> (e: DestructionI24)
        ensures
            e.value() == clamp_i24(val as int),
    {
        let clamped = if val < -0x80_0000 {
            -0x80_0000
        } else if val > 0x7F_FFFF {
            0x7F_FFFF
        } else {
            val
        };
        let b0 = (clamped & 0xFF) as u8;
        let b1 = ((clamped >> 8) & 0xFF) as u8;
        let b2 = ((clamped >> 16) & 0xFF) as u8;
        proof {
            lemma_i24_bytes(clamped);
        }
        DestructionI24([b0, b1, b2])
    }
}

/// Two byte triples with the same I24 value are the same bytes.
pub proof fn lemma_i24_value_injective(a: [u8; 3], b: [u8; 3])
    requires
        i24_value(a) == i24_value(b),
    ensures
        a@ == b@,
{
    let ra = u24_of(a[0], a[1], a[2]);
    let rb = u24_of(b[0], b[1], b[2]);
    assert(ra == rb);
    assert(a[0] == b[0]);
    assert(a[1] == b[1]);
    assert(a[2] == b[2]);
    assert(a@ =~= b@);
}

/// Decoding an event and encoding the value again gives back the same
/// bytes (`back` is any event whose value is the clamped decoded value, as
/// `from_i32(e.to_i32())` is).
pub proof fn lemma_i24_decode_encode(e: DestructionI24, back: DestructionI24)
    requires
        back.value() == clamp_i24(e.value()),
    ensures
        back.0@ == e.0@,
{
    lemma_i24_value_injective(back.0, e.0);
}

/// Encoding a value and decoding it again gives the value clamped into the
/// I24 range; values inside the range come back unchanged.
pub proof fn lemma_i24_encode_decode(v: i32, e: DestructionI24)
    requires
        e.value() == clamp_i24(v as int),
    ensures
        I24_MIN <= e.value() <= I24_MAX,
        I24_MIN <= v <= I24_MAX ==> e.value() == v,
        v < I24_MIN ==> e.value() == I24_MIN,
        v > I24_MAX ==> e.value() == I24_MAX,
{
}

/// Parsing errors.
#[derive(Debug, Clone, Copy, PartialEq, Eq, Structural)]
pub enum ParsingError {
    /// CRC-32 checksum mismatch
    CrcMismatch,
    /// Occupancy count exceeds 128
    OccupancyOverflow,
    /// Bitfield truncated or incomplete
    Truncated,
    /// Invalid bitfield structure
    InvalidFormat,
}

/// Ring buffer for destruction events (bounded queue).
pub struct DestructionRingBuffer {
    events: VecDeque<DestructionI24>,
    capacity: usize,
}

impl View for DestructionRingBuffer {
    type V = Seq<DestructionI24>;

    closed spec fn view(&self) -> Seq<DestructionI24> {
        self.events@
    }
}

impl DestructionRingBuffer {
    /// Maximum number of buffered events.
    pub closed spec fn cap(&self) -> usize {
        self.capacity
    }

    /// Create new ring buffer with given capacity.
    pub fn new(capacity: usize) -> (rb: Self)
        ensures
            rb@ == Seq::<DestructionI24>::empty(),
            rb.cap() == capacity,
    {
        DestructionRingBuffer { events: VecDeque::with_capacity(capacity), capacity }
    }

    /// Push destruction event to ring buffer.
    pub fn push(&mut self, event: DestructionI24) -> (r: Result<(), ParsingError>)
        ensures
            final(self).cap() == old(self).cap(),
            old(self)@.len() <= old(self).cap() ==> final(self)@.len() <= final(self).cap(),
            old(self)@.len() >= old(self).cap() ==> r == Err::<(), ParsingError>(
                ParsingError::OccupancyOverflow,
            ) && final(self)@ == old(self)@,
            old(self)@.len() < old(self).cap() ==> r == Ok::<(), ParsingError>(()) && final(self)@
                == old(self)@.push(event),
    {
        if self.events.len() >= self.capacity {
            return Err(ParsingError::OccupancyOverflow);
        }
        self.events.push_back(event);
        Ok(())
    }

    /// Get current occupancy (number of buffered events).
    pub fn occupancy(&self) -> (n: u32)
        ensures
            n == self@.len() as u32,
    {
        self.events.len() as u32
    }

    /// Clear all events.
    pub fn clear(&mut self)
        ensures
            final(self)@ == Seq::<DestructionI24>::empty(),
            final(self).cap() == old(self).cap(),
    {
        self.events.clear();
    }

    /// Get snapshot of current events (for frame processing).
    pub fn snapshot(&self) -> (v: Vec<DestructionI24>)
        ensures
            v@ == self@,
    {
        let mut out: Vec<DestructionI24> = Vec::new();
        let n = self.events.len();
        let mut i: usize = 0;
        while i < n
            invariant
                n == self.events@.len(),
                i <= n,
                out@ == self@.subrange(0, i as int),
            decreases n - i,
        {
            out.push(self.events[i]);
            i = i + 1;
            assert(out@ =~= self@.subrange(0, i as int));
        }
        assert(out@ =~= self@);
        out
    }
}

/// One step of the bitwise CRC register (least significant bit first).
pub open spec fn crc_shift(c: u32, poly: u32) -> u32 {
    if c & 1 == 1 {
        (c >> 1) ^ poly
    } else {
        c >> 1
    }
}

/// `n` steps of the CRC register.
pub open spec fn crc_shifts(c: u32, poly: u32, n: nat) -> u32
    decreases n,
{
    if n == 0 {
        c
    } else {
        crc_shift(crc_shifts(c, poly, (n - 1) as nat), poly)
    }
}

/// CRC register after all of `data`, starting from all ones.
pub open spec fn crc_register(data: Seq<u8>, poly: u32) -> u32
    decreases data.len(),
{
    if data.len() == 0 {
        0xFFFF_FFFF
    } else {
        crc_shifts(crc_register(data.drop_last(), poly) ^ (data.last() as u32), poly, 8)
    }
}

/// CRC-32 checksum of `data`: the final register, inverted.
pub open spec fn crc32_of(data: Seq<u8>, poly: u32) -> u32 {
    crc_register(data, poly) ^ 0xFFFF_FFFF
}

/// Little-endian u32 stored at `at`.
pub open spec fn le_u32_at(data: Seq<u8>, at: int) -> u32 {
    (data[at] as int + 256 * (data[at + 1] as int) + 65536 * (data[at + 2] as int) + 16777216 * (
    data[at + 3] as int)) as u32
}

/// Occupancy count stored in a complete bitfield.
pub open spec fn stored_occupancy(data: Seq<u8>) -> u32 {
    le_u32_at(data, OCCUPANCY_OFFSET as int)
}

/// CRC-32 stored in a complete bitfield.
pub open spec fn stored_crc(data: Seq<u8>) -> u32 {
    le_u32_at(data, CRC_OFFSET as int)
}

/// Event `i` of a bitfield: bytes `3i..3i+3`.
pub open spec fn event_bytes(data: Seq<u8>, i: int) -> Seq<u8> {
    data.subrange(3 * i, 3 * i + 3)
}

/// Events and occupancy of a bitfield that passed validation.
pub struct DestructionFrame {
    /// Number of events (0-128).
    pub occupancy: u32,
    /// The first `occupancy` event slots, in order.
    pub events: Vec<DestructionI24>,
}

/// Outcome of validating a bitfield: the error it is rejected with, if any.
pub open spec fn bitfield_error(data: Seq<u8>, poly: u32) -> Option<ParsingError> {
    if data.len() < BITFIELD_SIZE {
        Some(ParsingError::Truncated)
    } else if stored_occupancy(data) > EVENT_SLOTS {
        Some(ParsingError::OccupancyOverflow)
    } else if crc32_of(data.subrange(0, CRC_OFFSET as int), poly) != stored_crc(data) {
        Some(ParsingError::CrcMismatch)
    } else {
        None
    }
}

/// The register absorbs every byte the same way, wherever it stands: one
/// more byte XORs into the register and shifts it eight times.
pub proof fn lemma_crc_register_push(data: Seq<u8>, b: u8, poly: u32)
    ensures
        crc_register(data.push(b), poly) == crc_shifts(crc_register(data, poly) ^ (b as u32), poly, 8),
{
    assert(data.push(b).drop_last() =~= data);
}

/// The CRC-32 of a concatenation continues from the register of the first
/// part: the checksum covers every byte of the input, the occupancy field
/// included, with no byte position treated differently.
pub proof fn lemma_crc_register_append(a: Seq<u8>, b: Seq<u8>, poly: u32)
    ensures
        crc_register(a + b, poly) == crc_register_from(crc_register(a, poly), b, poly),
    decreases b.len(),
{
    if b.len() == 0 {
        assert(a + b =~= a);
    } else {
        lemma_crc_register_append(a, b.drop_last(), poly);
        assert((a + b).drop_last() =~= a + b.drop_last());
    }
}

/// CRC register after `data`, starting from register value `c`.
pub open spec fn crc_register_from(c: u32, data: Seq<u8>, poly: u32) -> u32
    decreases data.len(),
{
    if data.len() == 0 {
        c
    } else {
        crc_shifts(crc_register_from(c, data.drop_last(), poly) ^ (data.last() as u32), poly, 8)
    }
}

proof fn lemma_crc_shifts_eight(c: u32, poly: u32)
    ensures
        crc_shifts(c, poly, 8) == crc_shift(
            crc_shift(
                crc_shift(
                    crc_shift(crc_shift(crc_shift(crc_shift(crc_shift(c, poly), poly), poly), poly), poly),
                    poly,
                ),
                poly,
            ),
            poly,
        ),
{
    reveal_with_fuel(crc_shifts, 9);
}

/// Check value of the standard IEEE 802.3 CRC-32: the CRC-32 of the ASCII
/// digits "123456789" is 0xCBF43926.
pub proof fn lemma_crc32_check_value()
    ensures
        crc32_of(seq![0x31u8, 0x32u8, 0x33u8, 0x34u8, 0x35u8, 0x36u8, 0x37u8, 0x38u8, 0x39u8], CRC32_POLY)
            == 0xCBF4_3926u32,
{
    let p0 = Seq::<u8>::empty();
    let p1 = p0.push(0x31u8);
    lemma_crc_register_push(p0, 0x31u8, CRC32_POLY);
    lemma_crc_shifts_eight(crc_register(p0, CRC32_POLY) ^ (0x31u8 as u32), CRC32_POLY);
    assert(crc_register(p0, CRC32_POLY) == 0xFFFF_FFFFu32);
    assert(crc_shift(crc_shift(crc_shift(crc_shift(crc_shift(crc_shift(crc_shift(crc_shift(
        0xFFFF_FFFFu32 ^ 0x31u32, 0xEDB8_8320u32), 0xEDB8_8320u32), 0xEDB8_8320u32), 0xEDB8_8320u32),
        0xEDB8_8320u32), 0xEDB8_8320u32), 0xEDB8_8320u32), 0xEDB8_8320u32) == 0x7c231048u32)
        by (bit_vector);
    assert((0x31u8 as u32) == 0x31u32);
    let p2 = p1.push(0x32u8);
    lemma_crc_register_push(p1, 0x32u8, CRC32_POLY);
    lemma_crc_shifts_eight(crc_register(p1, CRC32_POLY) ^ (0x32u8 as u32), CRC32_POLY);
    assert(crc_register(p1, CRC32_POLY) == 0x7c231048u32);
    assert(crc_shift(crc_shift(crc_shift(crc_shift(crc_shift(crc_shift(crc_shift(crc_shift(
        0x7c231048u32 ^ 0x32u32, 0xEDB8_8320u32), 0xEDB8_8320u32), 0xEDB8_8320u32), 0xEDB8_8320u32),
        0xEDB8_8320u32), 0xEDB8_8320u32), 0xEDB8_8320u32), 0xEDB8_8320u32) == 0xb0acbb32u32)
        by (bit_vector);
    assert((0x32u8 as u32) == 0x32u32);
    let p3 = p2.push(0x33u8);
    lemma_crc_register_push(p2, 0x33u8, CRC32_POLY);
    lemma_crc_shifts_eight(crc_register(p2, CRC32_POLY) ^ (0x33u8 as u32), CRC32_POLY);
    assert(crc_register(p2, CRC32_POLY) == 0xb0acbb32u32);
    assert(crc_shift(crc_shift(crc_shift(crc_shift(crc_shift(crc_shift(crc_shift(crc_shift(
        0xb0acbb32u32 ^ 0x33u32, 0xEDB8_8320u32), 0xEDB8_8320u32), 0xEDB8_8320u32), 0xEDB8_8320u32),
        0xEDB8_8320u32), 0xEDB8_8320u32), 0xEDB8_8320u32), 0xEDB8_8320u32) == 0x77b79c2du32)
        by (bit_vector);
    assert((0x33u8 as u32) == 0x33u32);
    let p4 = p3.push(0x34u8);
    lemma_crc_register_push(p3, 0x34u8, CRC32_POLY);
    lemma_crc_shifts_eight(crc_register(p3, CRC32_POLY) ^ (0x34u8 as u32), CRC32_POLY);
    assert(crc_register(p3, CRC32_POLY) == 0x77b79c2du32);
    assert(crc_shift(crc_shift(crc_shift(crc_shift(crc_shift(crc_shift(crc_shift(crc_shift(
        0x77b79c2du32 ^ 0x34u32, 0xEDB8_8320u32), 0xEDB8_8320u32), 0xEDB8_8320u32), 0xEDB8_8320u32),
        0xEDB8_8320u32), 0xEDB8_8320u32), 0xEDB8_8320u32), 0xEDB8_8320u32) == 0x641c1f5cu32)
        by (bit_vector);
    assert((0x34u8 as u32) == 0x34u32);
    let p5 = p4.push(0x35u8);
    lemma_crc_register_push(p4, 0x35u8, CRC32_POLY);
    lemma_crc_shifts_eight(crc_register(p4, CRC32_POLY) ^ (0x35u8 as u32), CRC32_POLY);
    assert(crc_register(p4, CRC32_POLY) == 0x641c1f5cu32);
    assert(crc_shift(crc_shift(crc_shift(crc_shift(crc_shift(crc_shift(crc_shift(crc_shift(
        0x641c1f5cu32 ^ 0x35u32, 0xEDB8_8320u32), 0xEDB8_8320u32), 0xEDB8_8320u32), 0xEDB8_8320u32),
        0xEDB8_8320u32), 0xEDB8_8320u32), 0xEDB8_8320u32), 0xEDB8_8320u32) == 0x340ac5e3u32)
        by (bit_vector);
    assert((0x35u8 as u32) == 0x35u32);
    let p6 = p5.push(0x36u8);
    lemma_crc_register_push(p5, 0x36u8, CRC32_POLY);
    lemma_crc_shifts_eight(crc_register(p5, CRC32_POLY) ^ (0x36u8 as u32), CRC32_POLY);
    assert(crc_register(p5, CRC32_POLY) == 0x340ac5e3u32);
    assert(crc_shift(crc_shift(crc_shift(crc_shift(crc_shift(crc_shift(crc_shift(crc_shift(
        0x340ac5e3u32 ^ 0x36u32, 0xEDB8_8320u32), 0xEDB8_8320u32), 0xEDB8_8320u32), 0xEDB8_8320u32),
        0xEDB8_8320u32), 0xEDB8_8320u32), 0xEDB8_8320u32), 0xEDB8_8320u32) == 0xf68d2c9eu32)
        by (bit_vector);
    assert((0x36u8 as u32) == 0x36u32);
    let p7 = p6.push(0x37u8);
    lemma_crc_register_push(p6, 0x37u8, CRC32_POLY);
    lemma_crc_shifts_eight(crc_register(p6, CRC32_POLY) ^ (0x37u8 as u32), CRC32_POLY);
    assert(crc_register(p6, CRC32_POLY) == 0xf68d2c9eu32);
    assert(crc_shift(crc_shift(crc_shift(crc_shift(crc_shift(crc_shift(crc_shift(crc_shift(
        0xf68d2c9eu32 ^ 0x37u32, 0xEDB8_8320u32), 0xEDB8_8320u32), 0xEDB8_8320u32), 0xEDB8_8320u32),
        0xEDB8_8320u32), 0xEDB8_8320u32), 0xEDB8_8320u32), 0xEDB8_8320u32) == 0xaffc9660u32)
        by (bit_vector);
    assert((0x37u8 as u32) == 0x37u32);
    let p8 = p7.push(0x38u8);
    lemma_crc_register_push(p7, 0x38u8, CRC32_POLY);
    lemma_crc_shifts_eight(crc_register(p7, CRC32_POLY) ^ (0x38u8 as u32), CRC32_POLY);
    assert(crc_register(p7, CRC32_POLY) == 0xaffc9660u32);
    assert(crc_shift(crc_shift(crc_shift(crc_shift(crc_shift(crc_shift(crc_shift(crc_shift(
        0xaffc9660u32 ^ 0x38u32, 0xEDB8_8320u32), 0xEDB8_8320u32), 0xEDB8_8320u32), 0xEDB8_8320u32),
        0xEDB8_8320u32), 0xEDB8_8320u32), 0xEDB8_8320u32), 0xEDB8_8320u32) == 0x651f2550u32)
        by (bit_vector);
    assert((0x38u8 as u32) == 0x38u32);
    let p9 = p8.push(0x39u8);
    lemma_crc_register_push(p8, 0x39u8, CRC32_POLY);
    lemma_crc_shifts_eight(crc_register(p8, CRC32_POLY) ^ (0x39u8 as u32), CRC32_POLY);
    assert(crc_register(p8, CRC32_POLY) == 0x651f2550u32);
    assert(crc_shift(crc_shift(crc_shift(crc_shift(crc_shift(crc_shift(crc_shift(crc_shift(
        0x651f2550u32 ^ 0x39u32, 0xEDB8_8320u32), 0xEDB8_8320u32), 0xEDB8_8320u32), 0xEDB8_8320u32),
        0xEDB8_8320u32), 0xEDB8_8320u32), 0xEDB8_8320u32), 0xEDB8_8320u32) == 0x340bc6d9u32)
        by (bit_vector);
    assert((0x39u8 as u32) == 0x39u32);
    assert(crc_register(p9, CRC32_POLY) == 0x340bc6d9u32);
    assert(p9 =~= seq![0x31u8, 0x32u8, 0x33u8, 0x34u8, 0x35u8, 0x36u8, 0x37u8, 0x38u8, 0x39u8]);
    assert(0x340bc6d9u32 ^ 0xFFFF_FFFFu32 == 0xCBF4_3926u32) by (bit_vector);
}

/// Bitfield parser and validator.
pub struct BitfieldParser {
    crc_poly: u32,
}

impl BitfieldParser {
    /// The CRC polynomial in use.
    pub closed spec fn poly(&self) -> u32 {
        self.crc_poly
    }

    /// Create new parser.
    pub fn new() -> (p: Self)
        ensures
            p.poly() == CRC32_POLY,
    {
        BitfieldParser { crc_poly: 0xEDB8_8320 }
    }

    /// Compute the standard CRC-32 (IEEE 802.3, reflected, initial value and
    /// final XOR 0xFFFF_FFFF) over data.
    pub fn crc32(&self, data: &[u8]) -> (c: u32)
        ensures
            c == crc32_of(data@, self.poly()),
    {
        let mut crc = 0xFFFF_FFFFu32;
        let mut i: usize = 0;
        while i < data.len()
            invariant
                i <= data.len(),
                crc == crc_register(data@.subrange(0, i as int), self.crc_poly),
            decreases data.len() - i,
        {
            let byte = data[i];
            crc = crc ^ (byte as u32);
            let ghost start = crc;
            let mut k: u32 = 0;
            while k < 8
                invariant
                    k <= 8,
                    crc == crc_shifts(start, self.crc_poly, k as nat),
                decreases 8 - k,
            {
                if crc & 1 == 1 {
                    crc = (crc >> 1) ^ self.crc_poly;
                } else {
                    crc = crc >> 1;
                }
                k = k + 1;
            }
            proof {
                assert(data@.subrange(0, i as int + 1).drop_last() =~= data@.subrange(0, i as int));
            }
            i = i + 1;
        }
        assert(data@.subrange(0, i as int) =~= data@);
        crc ^ 0xFFFF_FFFF
    }

    /// Validate a bitfield and extract its events.
    ///
    /// Errors, checked in this order: `Truncated` when shorter than
    /// `BITFIELD_SIZE`; `OccupancyOverflow` when the occupancy exceeds 128;
    /// `CrcMismatch` when the stored CRC-32 differs from the CRC-32 of the
    /// event slots and occupancy.
    pub fn parse_destruction_events(&self, bitfield: &[u8]) -> (r: Result<
        DestructionFrame,
        ParsingError,
    >)
        ensures
            match bitfield_error(bitfield@, self.poly()) {
                Some(e) => r == Err::<DestructionFrame, ParsingError>(e),
                None => r matches Ok(frame) && {
                    &&& frame.occupancy == stored_occupancy(bitfield@)
                    &&& frame.events@.len() == frame.occupancy
                    &&& forall|i: int|
                        0 <= i < frame.occupancy ==> (#[trigger] frame.events@[i]).0@ == event_bytes(
                            bitfield@,
                            i,
                        )
                },
            },
    {
        if bitfield.len() < 392 {
            return Err(ParsingError::Truncated);
        }
        let occupancy = (bitfield[384] as u32) + 256 * (bitfield[385] as u32) + 65536 * (
        bitfield[386] as u32) + 16777216 * (bitfield[387] as u32);
        if occupancy > 128 {
            return Err(ParsingError::OccupancyOverflow);
        }
        let stored = (bitfield[388] as u32) + 256 * (bitfield[389] as u32) + 65536 * (
        bitfield[390] as u32) + 16777216 * (bitfield[391] as u32);
        let computed = self.crc32(vstd::slice::slice_subrange(bitfield, 0, 388));
        if computed != stored {
            return Err(ParsingError::CrcMismatch);
        }
        let mut events: Vec<DestructionI24> = Vec::new();
        let mut i: usize = 0;
        while i < occupancy as usize
            invariant
                occupancy <= 128,
                bitfield@.len() >= 392,
                i <= occupancy,
                events@.len() == i,
                forall|j: int|
                    0 <= j < i ==> (#[trigger] events@[j]).0@ == event_bytes(bitfield@, j),
            decreases occupancy - i,
        {
            let offset = i * 3;
            let event = DestructionI24([bitfield[offset], bitfield[offset + 1], bitfield[offset + 2]]);
            events.push(event);
            proof {
                assert(event.0@ =~= event_bytes(bitfield@, i as int));
            }
            i = i + 1;
        }
        Ok(DestructionFrame { occupancy, events })
    }
}

} // verus!
