//! Conversion between the store's persisted temperature unit and the
//! engine's working unit, centidegrees Celsius.

use crate::arith::div_round;
use crate::arith::lemma_round_div_multiple;
use crate::arith::lemma_round_div_ordered;
use crate::arith::round_div;
use vstd::prelude::*;

verus! {

/// Converts between the store's persisted temperature unit and centidegrees
/// Celsius, as the affine map `centidegrees = code * scale + offset`. Going
/// the other way rounds to the nearest code, ties away from zero. The default
/// persisted unit is whole degrees Celsius: scale 100, offset 0.
#[derive(Clone, Copy, Debug, PartialEq, Eq, Structural)]
pub struct TempConverter {
    /// Centidegrees per persisted unit; positive.
    pub scale: i32,
    /// Centidegrees the persisted zero denotes.
    pub offset: i32,
}

impl TempConverter {
    /// A meaningful converter: the scale is positive.
    pub open spec fn wf(&self) -> bool {
        self.scale >= 1
    }

    /// The centidegrees Celsius a persisted code denotes.
    pub open spec fn spec_to_celsius(&self, code: int) -> int {
        code * self.scale + self.offset
    }

    /// The persisted code nearest to a centidegree temperature.
    pub open spec fn spec_to_vpd(&self, centi: int) -> int {
        round_div(centi - self.offset, self.scale as int)
    }

    /// Creates a converter from its two coefficients.
    pub fn new(scale: i32, offset: i32) -> (r: TempConverter)
        requires
            scale >= 1,
        ensures
            r == (TempConverter { scale, offset }),
            r.wf(),
    {
        TempConverter { scale, offset }
    }

    /// Converts a persisted temperature code to centidegrees Celsius.
    pub fn vpd_to_celsius(&self, code: i32) -> (r: i64)
        requires
            self.wf(),
        ensures
            r as int == self.spec_to_celsius(code as int),
    {
        proof {
            assert(-0x4000_0000_0000_0000 <= (code as int) * (self.scale as int)
                <= 0x4000_0000_0000_0000) by (nonlinear_arith)
                requires
                    -0x8000_0000 <= code as int <= 0x7fff_ffff,
                    1 <= self.scale as int <= 0x7fff_ffff,
            ;
        }
        let prod: i64 = code as i64 * self.scale as i64;
        prod + self.offset as i64
    }

    /// Converts a centidegree temperature to the nearest persisted code.
    /// The temperature must be one whose code fits the persisted width; the
    /// engine only converts temperatures within its configured bounds, which
    /// its well-formedness keeps inside that range.
    pub fn celsius_to_vpd(&self, centi: i64) -> (r: i32)
        requires
            self.wf(),
            -0x1000_0000_0000 <= centi <= 0x1000_0000_0000,
            -0x8000_0000 <= self.spec_to_vpd(centi as int) <= 0x7fff_ffff,
        ensures
            r as int == self.spec_to_vpd(centi as int),
    {
        let r64: i64 = div_round(centi - self.offset as i64, self.scale as i64);
        r64 as i32
    }
}

impl Default for TempConverter {
    /// The default converter: the persisted unit is whole degrees Celsius.
    fn default() -> (r: TempConverter)
        ensures
            r == (TempConverter { scale: 100 as i32, offset: 0 as i32 }),
            r.wf(),
    {
        TempConverter { scale: 100, offset: 0 }
    }
}

/// The two conversions are consistent: a persisted code taken to centidegrees
/// and back is returned unchanged, for every code a device can report.
pub proof fn lemma_temp_roundtrip(tc: TempConverter, code: int)
    requires
        tc.wf(),
    ensures
        tc.spec_to_vpd(tc.spec_to_celsius(code)) == code,
{
    assert(code * tc.scale + tc.offset - tc.offset == code * tc.scale);
    lemma_round_div_multiple(code, tc.scale as int);
}

/// Converting centidegrees to persisted codes preserves order.
pub proof fn lemma_to_vpd_ordered(tc: TempConverter, c1: int, c2: int)
    requires
        tc.wf(),
        c1 <= c2,
    ensures
        tc.spec_to_vpd(c1) <= tc.spec_to_vpd(c2),
{
    lemma_round_div_ordered(c1 - tc.offset, c2 - tc.offset, tc.scale as int);
}

} // verus!
