//! Sensor values travel through the library as the bit patterns of IEEE-754
//! single-precision numbers; this module compares them as numbers.
use vstd::prelude::*;

verus! {

/// The pattern encodes a NaN: all exponent bits set and a nonzero fraction.
pub open spec fn is_nan_bits(a: u32) -> bool {
    (a & 0x7f80_0000u32) == 0x7f80_0000u32 && (a & 0x007f_ffffu32) != 0
}

/// The pattern encodes zero of either sign.
pub open spec fn is_zero_bits(a: u32) -> bool {
    (a & 0x7fff_ffffu32) == 0
}

/// IEEE-754 equality of the numbers that `a` and `b` encode: a NaN equals
/// nothing, the two zeros are equal, and any other pair is equal exactly when
/// the patterns are.
pub open spec fn same_value(a: u32, b: u32) -> bool {
    !is_nan_bits(a) && !is_nan_bits(b) && (a == b || (is_zero_bits(a) && is_zero_bits(b)))
}

/// Pattern of `0.0`.
pub const ZERO: u32 = 0;

/// Pattern of `1.0`.
pub const ONE: u32 = 0x3f80_0000;

/// Whether the numbers that `a` and `b` encode compare equal.
pub fn values_equal(a: u32, b: u32) -> (r: bool)
    ensures
        r == same_value(a, b),
{
    let a_nan = (a & 0x7f80_0000u32) == 0x7f80_0000u32 && (a & 0x007f_ffffu32) != 0;
    let b_nan = (b & 0x7f80_0000u32) == 0x7f80_0000u32 && (b & 0x007f_ffffu32) != 0;
    let both_zero = (a & 0x7fff_ffffu32) == 0 && (b & 0x7fff_ffffu32) == 0;
    !a_nan && !b_nan && (a == b || both_zero)
}

/// Whether the number that `a` encodes is zero.
pub fn is_zero(a: u32) -> (r: bool)
    ensures
        r == is_zero_bits(a),
{
    (a & 0x7fff_ffffu32) == 0
}

} // verus!
