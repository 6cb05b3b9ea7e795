//! Shared handle reader (observer pattern): destruction bitfield snapshots
//! and their conversion into the 269-dimension I24 coordinate layout.
//!
//! The reader currently produces a deterministic test pattern per frame;
//! the GPU readback path is outside this library.
use crate::physics::bitfield_parser::{i24_value, sign_extend_24, u24_of};
use vstd::prelude::*;

verus! {

/// Number of coordinates in a torsion snapshot.
pub const MANIFOLD_DIM: usize = 269;

/// I24 magnitude written for an active event.
pub const ACTIVE_MAGNITUDE: u32 = 2_000_000;

/// Destruction event bitmask: 128 events (u128 packed).
#[derive(Debug, Clone, Copy)]
pub struct DestructionBitfield {
    pub events: u128,
    pub timestamp_frame: u32,
}

/// Event slot `idx` (0-127) of the bitmask is active.
pub open spec fn event_active(events: u128, idx: nat) -> bool {
    (events >> idx) & 1 != 0
}

/// Number of active slots among the first `k`.
pub open spec fn active_below(events: u128, k: nat) -> nat
    decreases k,
{
    if k == 0 {
        0
    } else {
        active_below(events, (k - 1) as nat) + if event_active(events, (k - 1) as nat) {
            1nat
        } else {
            0nat
        }
    }
}

/// Number of set bits of `x`.
pub open spec fn popcount(x: u128) -> nat {
    active_below(x, 128)
}

impl DestructionBitfield {
    /// Number of active events (set bits).
    pub fn occupancy(&self) -> (n: u32)
        ensures
            n == popcount(self.events),
    {
        let mut n: u32 = 0;
        let mut idx: u32 = 0;
        while idx < 128
            invariant
                idx <= 128,
                n == active_below(self.events, idx as nat),
                n <= idx,
            decreases 128 - idx,
        {
            if (self.events >> idx) & 1 != 0 {
                n = n + 1;
            }
            idx = idx + 1;
        }
        n
    }
}

/// I24 signed integer (3 bytes, little-endian).
#[derive(Debug, Clone, Copy)]
pub struct I24 {
    bytes: [u8; 3],
}

impl I24 {
    /// The signed value of the three bytes.
    pub closed spec fn value(self) -> int {
        i24_value(self.bytes)
    }

    /// The low 24 bits of `val`, as three little-endian bytes.
    pub fn from_u24(val: u32) -> (r: Self)
        ensures
            r.value() == sign_extend_24(val as int % 0x100_0000),
    {
        let masked = val & 0xFF_FF_FF;
        let b0 = (masked & 0xFF) as u8;
        let b1 = ((masked >> 8) & 0xFF) as u8;
        let b2 = ((masked >> 16) & 0xFF) as u8;
        proof {
            assert(b0 as u32 + 256 * (b1 as u32) + 65536 * (b2 as u32) == val % 0x100_0000)
                by (bit_vector)
                requires
                    masked == val & 0xFF_FF_FF,
                    b0 == (masked & 0xFF) as u8,
                    b1 == ((masked >> 8) & 0xFF) as u8,
                    b2 == ((masked >> 16) & 0xFF) as u8,
            ;
            assert(u24_of(b0, b1, b2) == val as int % 0x100_0000);
        }
        I24 { bytes: [b0, b1, b2] }
    }

    /// Signed value, sign-extended from bit 23.
    pub fn to_i32(self) -> (v: i32)
        ensures
            v == self.value(),
    {
        let b0 = self.bytes[0] as u32;
        let b1 = (self.bytes[1] as u32) << 8;
        let b2 = (self.bytes[2] as u32) << 16;
        let mut i24 = (b0 | b1 | b2) as i32;
        let ghost x0 = self.bytes[0];
        let ghost x1 = self.bytes[1];
        let ghost x2 = self.bytes[2];
        proof {
            assert(i24 == x0 as int + 256 * (x1 as int) + 65536 * (x2 as int) && 0 <= i24 < 0x100_0000)
                by (bit_vector)
                requires
                    b0 == x0 as u32,
                    b1 == (x1 as u32) << 8,
                    b2 == (x2 as u32) << 16,
                    i24 == (b0 | b1 | b2) as i32,
            ;
            assert((i24 & 0x80_0000 != 0) == (i24 >= 0x80_0000)) by (bit_vector)
                requires
                    0 <= i24 < 0x100_0000,
            ;
            assert((i24 & 0x80_0000 != 0) ==> (i24 | (0xFF_00_0000u32 as i32)) == i24 - 0x100_0000)
                by (bit_vector)
                requires
                    0 <= i24 < 0x100_0000,
            ;
        }
        if i24 & 0x80_0000 != 0 {
            i24 = i24 | (0xFF_00_0000u32 as i32);
        }
        i24
    }
}

/// Torsion array snapshot (269 dimensions, ready for DVSM injection).
#[derive(Debug, Clone)]
pub struct TorsionSnapshot {
    pub frame_count: u32,
    pub z_manifold_i24: Vec<I24>,
    pub bitfield_occupancy: u32,
    pub timestamp_us: u64,
}

/// The test-pattern event mask produced for frame number `frame` (frames
/// count from 1): frames 1-3 have no events, 4-6 have 32, 7-9 have 64 and
/// frame 10 has 32 scattered ones; the pattern repeats every ten frames.
pub open spec fn test_pattern(frame: u32) -> u128 {
    let phase = (frame as int - 1) % 10;
    if phase <= 2 {
        0
    } else if phase <= 5 {
        0xFF_FF_FF_FF
    } else if phase <= 8 {
        0xFF_FF_FF_FF_FF_FF_FF_FF
    } else {
        0x00_FF_00_FF_00_FF_00_FF
    }
}

/// I24 value of coordinate `i` of a snapshot of `events`.
pub open spec fn coordinate_value(events: u128, i: int) -> int {
    if event_active(events, (i % 128) as nat) {
        ACTIVE_MAGNITUDE as int
    } else {
        0
    }
}

/// The test pattern repeats every ten frames.
pub proof fn lemma_test_pattern_period(frame: u32)
    requires
        1 <= frame <= u32::MAX - 10,
    ensures
        test_pattern(frame) == test_pattern((frame + 10) as u32),
{
}

/// Coordinates 128 apart read the same event slot.
pub proof fn lemma_coordinates_cycle_through_slots(events: u128, i: int)
    requires
        0 <= i,
    ensures
        coordinate_value(events, i) == coordinate_value(events, i + 128),
{
    assert((i + 128) % 128 == i % 128);
}

/// Number of `true` entries.
pub open spec fn count_true(s: Seq<bool>) -> nat
    decreases s.len(),
{
    if s.len() == 0 {
        0
    } else {
        count_true(s.drop_last()) + if s.last() {
            1nat
        } else {
            0nat
        }
    }
}

/// Only reads advance the frame counter, by one each: along a sequence of
/// reader states where step `i` is a read (`reads[i]`, the counter grows
/// by one as `wait_and_read_frame` ensures) or leaves the reader unchanged
/// (the `&self` methods), the counter grows by the number of reads. From a
/// new reader (counter 0) it therefore equals the number of reads, and the
/// `k`-th read returns `test_pattern(k)`.
pub proof fn lemma_frame_count_after_reads(trace: Seq<SharedHandleReader>, reads: Seq<bool>)
    requires
        trace.len() == reads.len() + 1,
        forall|i: int|
            0 <= i < reads.len() ==> (#[trigger] reads[i] ==> trace[i + 1].frames_read()
                == trace[i].frames_read() + 1) && (!reads[i] ==> trace[i + 1] == trace[i]),
    ensures
        trace.last().frames_read() == trace[0].frames_read() + count_true(reads),
    decreases reads.len(),
{
    if reads.len() > 0 {
        let n = reads.len() - 1;
        assert forall|i: int| 0 <= i < reads.drop_last().len() implies (#[trigger] reads.drop_last()[i]
            ==> trace.drop_last()[i + 1].frames_read() == trace.drop_last()[i].frames_read() + 1) && (
        !reads.drop_last()[i] ==> trace.drop_last()[i + 1] == trace.drop_last()[i]) by {
            assert(reads.drop_last()[i] == reads[i]);
        }
        lemma_frame_count_after_reads(trace.drop_last(), reads.drop_last());
        assert(reads[n] == reads.last());
    }
}

/// Shared Handle Reader state machine.
pub struct SharedHandleReader {
    is_ready: bool,
    handle_name: String,
    frame_counter: u32,
    last_snapshot: Option<DestructionBitfield>,
}

impl SharedHandleReader {
    /// Frames read so far.
    pub closed spec fn frames_read(&self) -> u32 {
        self.frame_counter
    }

    /// Name of the shared handle.
    pub closed spec fn name(&self) -> Seq<char> {
        self.handle_name@
    }

    /// The most recent bitfield read, if any.
    pub closed spec fn last(&self) -> Option<DestructionBitfield> {
        self.last_snapshot
    }

    /// The reader has been initialised.
    pub closed spec fn ready(&self) -> bool {
        self.is_ready
    }

    /// Initialize reader (called once at startup).
    pub fn new(handle_name: &str) -> (r: Result<Self, String>)
        ensures
            r matches Ok(reader) && {
                &&& reader.ready()
                &&& reader.name() == handle_name@
                &&& reader.frames_read() == 0
                &&& reader.last() is None
            },
    {
        Ok(
            SharedHandleReader {
                is_ready: true,
                handle_name: String::from_str(handle_name),
                frame_counter: 0,
                last_snapshot: None,
            },
        )
    }

    /// Name of the shared handle this reader was created for.
    pub fn handle_name(&self) -> (s: &str)
        ensures
            s@ == self.name(),
    {
        self.handle_name.as_str()
    }

    /// Read the next destruction bitfield (deterministic test pattern).
    pub fn wait_and_read_frame(&mut self) -> (r: Result<DestructionBitfield, String>)
        requires
            old(self).ready() ==> old(self).frames_read() < u32::MAX,
        ensures
            final(self).name() == old(self).name(),
            final(self).ready() == old(self).ready(),
            !old(self).ready() ==> *final(self) == *old(self) && (r matches Err(msg) && msg@
                == "SharedHandleReader not initialized"@),
            old(self).ready() ==> (r matches Ok(bf) && {
                &&& final(self).frames_read() == old(self).frames_read() + 1
                &&& bf.timestamp_frame == final(self).frames_read()
                &&& bf.events == test_pattern(final(self).frames_read())
                &&& final(self).last() == Some(bf)
            }),
    {
        if !self.is_ready {
            return Err(String::from_str("SharedHandleReader not initialized"));
        }
        self.frame_counter = self.frame_counter + 1;
        let phase = (self.frame_counter - 1) % 10;
        let events: u128 = if phase <= 2 {
            0u128
        } else if phase <= 5 {
            0xFF_FF_FF_FFu128
        } else if phase <= 8 {
            0xFF_FF_FF_FF_FF_FF_FF_FFu128
        } else {
            0x00_FF_00_FF_00_FF_00_FFu128
        };
        let bitfield = DestructionBitfield { events, timestamp_frame: self.frame_counter };
        self.last_snapshot = Some(bitfield);
        Ok(bitfield)
    }

    /// Convert destruction bitfield to Torsion Array format (269 dimensions).
    pub fn snapshot_to_torsion_array(&self, bitfield: DestructionBitfield, frame_count: u32) -> (s:
        TorsionSnapshot)
        ensures
            s.frame_count == frame_count,
            s.z_manifold_i24@.len() == MANIFOLD_DIM,
            forall|i: int|
                0 <= i < MANIFOLD_DIM ==> (#[trigger] s.z_manifold_i24@[i]).value()
                    == coordinate_value(bitfield.events, i),
            s.bitfield_occupancy == popcount(bitfield.events),
            s.timestamp_us == bitfield.timestamp_frame as u64 * 1000,
    {
        let mut z_manifold_i24: Vec<I24> = Vec::with_capacity(269);
        let occupancy = bitfield.occupancy();
        let mut i: usize = 0;
        while i < 269
            invariant
                i <= 269,
                z_manifold_i24@.len() == i,
                forall|j: int|
                    0 <= j < i ==> (#[trigger] z_manifold_i24@[j]).value() == coordinate_value(
                        bitfield.events,
                        j,
                    ),
            decreases 269 - i,
        {
            let event_idx = i % 128;
            let is_active = (bitfield.events >> event_idx) & 1 != 0;
            let magnitude: i32 = if is_active {
                2_000_000i32
            } else {
                0i32
            };
            let coord = I24::from_u24(magnitude as u32);
            z_manifold_i24.push(coord);
            i = i + 1;
        }
        TorsionSnapshot {
            frame_count,
            z_manifold_i24,
            bitfield_occupancy: occupancy,
            timestamp_us: (bitfield.timestamp_frame as u64) * 1_000,
        }
    }

    /// Get frame counter (for telemetry).
    pub fn frame_count(&self) -> (n: u32)
        ensures
            n == self.frames_read(),
    {
        self.frame_counter
    }
}

} // verus!
