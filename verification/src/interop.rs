//! Interop layer: shared handle reader and its snapshot types.
pub mod dx12_shared_handle;

pub use dx12_shared_handle::{DestructionBitfield, SharedHandleReader, TorsionSnapshot, I24};
