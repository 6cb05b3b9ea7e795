//! Draco BF6 library: the deterministic, integer-only parts of the DVSM
//! observer — regime state machine, destruction bitfield parsing, I24 codecs,
//! CRC-32, session hashing over bit patterns, validation status logic and
//! the HUD's hash/regime bookkeeping and text.
pub mod interop;
pub mod overlay;
pub mod physics;
pub mod text;

pub use interop::{DestructionBitfield, SharedHandleReader, TorsionSnapshot};
pub use overlay::{AuthorizationStatus, MetricsLog};

use vstd::prelude::*;

verus! {

/// Observer mode configuration.
#[derive(Debug)]
pub struct ObserverConfig {
    pub shared_handle_name: String,
    pub enable_overlay: bool,
    pub overlay_position: (i32, i32),
    pub polling_interval_us: u64,
    pub max_frame_budget_us: u64,
}

impl Clone for ObserverConfig {
    fn clone(&self) -> (c: Self)
        ensures
            c.shared_handle_name@ == self.shared_handle_name@,
            c.enable_overlay == self.enable_overlay,
            c.overlay_position == self.overlay_position,
            c.polling_interval_us == self.polling_interval_us,
            c.max_frame_budget_us == self.max_frame_budget_us,
    {
        ObserverConfig {
            shared_handle_name: self.shared_handle_name.clone(),
            enable_overlay: self.enable_overlay,
            overlay_position: (self.overlay_position.0, self.overlay_position.1),
            polling_interval_us: self.polling_interval_us,
            max_frame_budget_us: self.max_frame_budget_us,
        }
    }
}

impl Default for ObserverConfig {
    fn default() -> (c: Self)
        ensures
            c.shared_handle_name@ == "BF6_Destruction_Global_0"@,
            c.enable_overlay,
            c.overlay_position == (10i32, 10i32),
            c.polling_interval_us == 8_333,
            c.max_frame_budget_us == 30_700,
    {
        ObserverConfig {
            shared_handle_name: String::from_str("BF6_Destruction_Global_0"),
            enable_overlay: true,
            overlay_position: (10, 10),
            polling_interval_us: 8_333,  // 120 Hz
            max_frame_budget_us: 30_700,  // Safe margin from 120Hz target
        }
    }
}

} // verus!
