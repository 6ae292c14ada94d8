use vstd::prelude::*;

verus! {

/// Why a function entry's color attributes were rejected.
#[derive(Debug, Clone, Copy, PartialEq, Eq, Structural)]
pub enum FunctionEntryError {
    /// The color speed lies outside [0, 1].
    ColorSpeed,
    /// The color lies outside [0, 1].
    Color,
}

/// Why a palette's keys were rejected.
#[derive(Debug, Clone, Copy, PartialEq, Eq, Structural)]
pub enum PaletteError {
    /// A key lies outside the open interval (0, 1).
    OutOfBounds,
    /// The keys are not strictly increasing.
    NonMonotonic,
    /// There are not exactly two keys fewer than colors.
    IncorrectNumber,
}

} // verus!
