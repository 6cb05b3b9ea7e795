# draco_bf6

Verified core of the Draco BF6 DVSM observer.

`src/` is the verified library:

- `physics/regime_fsm.rs` — occupancy-driven regime state machine with
  asymmetric hysteresis (4 high frames up to Regime 5, 2 low frames back to
  Regime 1), its abstract model `FsmView`, and the hysteresis laws.
- `physics/bitfield_parser.rs` — I24 event codec, bounded event buffer,
  bitwise CRC-32 and validation/extraction of 392-byte destruction bitfields.
- `physics/session_hash.rs` — 64-bit FNV-1a session hashes over the
  little-endian IEEE 754 bit patterns of the state, with negative zero
  normalized; hash continuity check.
- `physics/validator.rs` — rule bitmask, severity level and status line.
- `physics/fixed_point.rs` — quantization mode selector.
- `interop/dx12_shared_handle.rs` — shared handle reader (test pattern),
  I24 coordinates and torsion snapshots.
- `overlay/` — hash/regime log of the metrics tracker, HUD text lines,
  authorization status labels.
- `text.rs` — verified decimal/hex formatting and joining.

`app/` is ordinary Rust around it: the floating-point codecs, state and
evolution pipeline, the supervisor's float checks, torsion projection,
frame-time metrics, watermark animation, ImGui rendering and environment
lookup.
