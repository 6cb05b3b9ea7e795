//! Quantization mode selector of the fixed-point codecs.
use vstd::prelude::*;

verus! {

/// Quantization mode selector (determines which codec to use).
#[derive(Debug, Clone, Copy, PartialEq, Eq, Structural, Hash)]
pub enum QuantMode {
    /// Primary: [−1.0, 1.0) range, ULP = 2^−31 (highest precision for normal destruction)
    Q31,
    /// Overflow handling: [−32768, 32768) range, ULP = 2^−16 (handles large impacts)
    Q16,
    /// Extended range: ±9.223e18, ULP = 2^−64 (future: extreme phenomena)
    Q64_64,
}

impl QuantMode {
    /// Description text of each mode.
    pub open spec fn describe(self) -> Seq<char> {
        match self {
            QuantMode::Q31 => "Q31 (high precision, normal destruction)"@,
            QuantMode::Q16 => "Q16 (overflow handling)"@,
            QuantMode::Q64_64 => "Q64.64 (extended range)"@,
        }
    }

    /// Human-readable description.
    pub fn description(&self) -> (s: &'static str)
        ensures
            s@ == self.describe(),
    {
        match self {
            QuantMode::Q31 => "Q31 (high precision, normal destruction)",
            QuantMode::Q16 => "Q16 (overflow handling)",
            QuantMode::Q64_64 => "Q64.64 (extended range)",
        }
    }
}

} // verus!
