use vstd::prelude::*;

verus! {

/// Why an embedding was refused.
#[derive(Debug, Clone, Copy, PartialEq, Eq, Structural)]
pub enum WatermarkError {
    /// The watermark text holds this character, which the alphabet lacks.
    InvalidCharacter(char),
    /// The strength is not a positive number that the fixed-point format holds.
    InvalidStrengthConfiguration,
    /// A buffer does not hold one entry per pixel.
    DimensionMismatch,
}

} // verus!
