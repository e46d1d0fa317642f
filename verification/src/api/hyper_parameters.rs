//! Numeric representations shared by the whole crate.
use vstd::prelude::*;

verus! {

/// Signed integers of Narsese (fixed stamps).
pub type IntPrecision = isize;

/// Unsigned integers of Narsese (intervals, indices).
pub type UIntPrecision = usize;

/// A real number of Narsese (frequency, confidence, budget values), held as the
/// IEEE-754 binary64 bit pattern of the number.
pub type FloatBits = u64;

/// The bit pattern of `+0.0`.
pub const FLOAT_ZERO_BITS: u64 = 0u64;

/// The bit pattern of `-0.0`.
pub const FLOAT_NEG_ZERO_BITS: u64 = 0x8000_0000_0000_0000u64;

/// The bit pattern of `1.0`.
pub const FLOAT_ONE_BITS: u64 = 0x3FF0_0000_0000_0000u64;

/// Whether the binary64 number with these bits lies in `[0, 1]` (`0.0 <= x && x <= 1.0`
/// under IEEE-754 comparison): the non-negative numbers up to `1.0`, and `-0.0`.
pub open spec fn spec_in_01(bits: u64) -> bool {
    bits <= FLOAT_ONE_BITS || bits == FLOAT_NEG_ZERO_BITS
}

/// Whether the binary64 number with these bits lies in `[0, 1]`.
pub fn is_in_01(bits: FloatBits) -> (res: bool)
    ensures
        res == spec_in_01(bits),
{
    bits <= FLOAT_ONE_BITS || bits == FLOAT_NEG_ZERO_BITS
}

} // verus!
