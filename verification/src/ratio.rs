//! Split ratios: single-precision values kept by their bit pattern.

use vstd::prelude::*;

verus! {

/// The smallest ratio a split may have, as bits (0.05).
pub const MIN_RATIO: u32 = 0x3d4c_cccd;

/// The largest ratio a split may have, as bits (0.95).
pub const MAX_RATIO: u32 = 0x3f73_3333;

/// The ratio of a fresh split, as bits (0.5).
pub const HALF_RATIO: u32 = 0x3f00_0000;

/// The first child's share of a split: an IEEE 754 binary32 bit pattern.
#[derive(Debug, Clone, Copy, PartialEq, Eq, Structural)]
pub struct Ratio {
    pub bits: u32,
}

impl Ratio {
    /// The pattern is a NaN.
    pub open spec fn nan(self) -> bool {
        self.bits % 0x8000_0000 > 0x7f80_0000
    }

    /// The place of a value that is no NaN in the numeric order.
    pub open spec fn order(self) -> int {
        if self.bits < 0x8000_0000 {
            self.bits as int
        } else {
            0x8000_0000 - self.bits
        }
    }

    /// The value brought between the smallest and the largest ratio; a NaN
    /// stays as it is.
    pub open spec fn clamped(self) -> Ratio {
        if self.nan() {
            self
        } else if self.order() < MIN_RATIO {
            Ratio { bits: MIN_RATIO }
        } else if self.order() > MAX_RATIO {
            Ratio { bits: MAX_RATIO }
        } else {
            self
        }
    }

    pub fn clamp(self) -> (clamped: Ratio)
        ensures
            clamped == self.clamped(),
    {
        if self.bits % 0x8000_0000 > 0x7f80_0000 {
            self
        } else if self.bits >= 0x8000_0000 || self.bits < MIN_RATIO {
            Ratio { bits: MIN_RATIO }
        } else if self.bits > MAX_RATIO {
            Ratio { bits: MAX_RATIO }
        } else {
            self
        }
    }
}

/// A clamped ratio lies between the bounds, and clamping it again changes
/// nothing.
pub proof fn law_clamp_bounds(ratio: Ratio)
    ensures
        !ratio.nan() ==> MIN_RATIO <= ratio.clamped().order() <= MAX_RATIO,
        ratio.clamped().clamped() == ratio.clamped(),
{
}

/// The value of a ratio from one thirty-second up to less than one, in parts
/// of which two to the twenty-eighth make one.
pub open spec fn units(bits: u32) -> int {
    let fraction = bits as int % 0x80_0000 + 0x80_0000;
    let exponent = bits as int / 0x80_0000;
    if exponent == 122 {
        fraction
    } else if exponent == 123 {
        2 * fraction
    } else if exponent == 124 {
        4 * fraction
    } else if exponent == 125 {
        8 * fraction
    } else {
        16 * fraction
    }
}

/// A fresh split is in the middle, and the bounds are the values that are
/// nearest to one twentieth and to nineteen twentieths.
pub proof fn law_bounds()
    ensures
        2 * units(HALF_RATIO) == 0x1000_0000,
        -10 <= 20 * units(MIN_RATIO) - 0x1000_0000 <= 10,
        -160 <= 20 * units(MAX_RATIO) - 19 * 0x1000_0000 <= 160,
{
}

/// Clamping keeps what lies between the bounds, and takes the bound on whose
/// side a value lies otherwise; a NaN is kept.
pub proof fn law_clamp(ratio: Ratio)
    ensures
        ratio.nan() ==> ratio.clamped() == ratio,
        !ratio.nan() && 0x3d4c_cccd <= ratio.bits <= 0x3f73_3333 ==> ratio.clamped() == ratio,
        !ratio.nan() && (ratio.bits < 0x3d4c_cccd || ratio.bits >= 0x8000_0000)
            ==> ratio.clamped().bits == 0x3d4c_cccd,
        !ratio.nan() && 0x3f73_3333 < ratio.bits < 0x8000_0000 ==> ratio.clamped().bits
            == 0x3f73_3333,
{
}

} // verus!
