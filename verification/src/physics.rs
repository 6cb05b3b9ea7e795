//! Physics layer: regime state machine, bitfield parsing, validation logic.
pub mod bitfield_parser;
pub mod fixed_point;
pub mod regime_fsm;
pub mod session_hash;
pub mod validator;

pub use bitfield_parser::{
    BitfieldParser, DestructionFrame, DestructionI24, DestructionRingBuffer, ParsingError,
};
pub use regime_fsm::{Regime, RegimeFsm};
pub use validator::{StatusLevel, ValidationResult};
pub use fixed_point::QuantMode;
