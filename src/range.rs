//! The range table, the switching thresholds and the divider transfer
//! function.

use vstd::prelude::*;

verus! {

/// Number of selectable ranges.
pub const RANGE_COUNT: u8 = 5;

/// Index of the highest (widest) range.
pub const TOP_RANGE: u8 = 4;

/// ADC code of the divider's supply rail.
pub const FULL_SCALE_CODE: u16 = 3250;

/// At or above this code the next higher range is selected.
pub const UPPER_THRESHOLD: u16 = 1650;

/// At or below this code the next lower range is selected.
pub const LOWER_THRESHOLD: u16 = 270;

/// At or above this code the input is open or beyond the top range.
pub const OVER_RANGE_CODE: u16 = 2700;

/// Below this resistance, in ohms, a probe is considered connected.
pub const CONNECTED_LIMIT_OHMS: u64 = 5_000_000;

/// Reference resistor of each range, in ohms.
pub open spec fn reference_ohms(range: int) -> int {
    if range == 0 { 100 }
    else if range == 1 { 1000 }
    else if range == 2 { 10_000 }
    else if range == 3 { 100_000 }
    else { 1_700_000 }
}

/// Correction of each range, in thousandths (1000 is no correction).
pub open spec fn correction_of(range: int) -> int {
    1000
}

/// The reference resistor of a range, in ohms.
pub fn reference_resistance(range: u8) -> (r: u32)
    requires
        range < RANGE_COUNT,
    ensures
        r == reference_ohms(range as int),
{
    if range == 0 { 100 }
    else if range == 1 { 1000 }
    else if range == 2 { 10_000 }
    else if range == 3 { 100_000 }
    else { 1_700_000 }
}

/// The correction factor of a range, in thousandths.
pub fn correction_permille(range: u8) -> (r: u16)
    requires
        range < RANGE_COUNT,
    ensures
        r == correction_of(range as int),
{
    1000
}

/// Unknown resistance, in milliohms, of a divider whose midpoint reads
/// `code` against a reference of `reference` ohms and a rail of `full_scale`,
/// scaled by `correction` thousandths.
pub open spec fn divider_milli(code: int, reference: int, correction: int, full_scale: int) -> int {
    (code * reference * correction) / (full_scale - code)
}

/// Computes the unknown resistance in milliohms, rounded down:
/// `code * reference / (full_scale - code)`, scaled by the correction.
pub fn divider_milliohms(code: u16, reference: u32, correction: u16, full_scale: u16) -> (r: u64)
    requires
        code < full_scale,
    ensures
        r == divider_milli(code as int, reference as int, correction as int, full_scale as int),
{
    let c = code as u64;
    let rf = reference as u64;
    let k = correction as u64;
    proof {
        assert(c * rf <= 0xffff * 0xffff_ffff) by (nonlinear_arith)
            requires c <= 0xffff, rf <= 0xffff_ffff;
        assert(c * rf * k <= 0xffff * 0xffff_ffff * 0xffff) by (nonlinear_arith)
            requires c * rf <= 0xffff * 0xffff_ffff, k <= 0xffff;
    }
    let num = c * rf * k;
    let den = (full_scale - code) as u64;
    num / den
}

/// Output levels of the range-select lines for `range`: `true` marks the one
/// active (driven low) line.
pub fn select_lines(range: u8) -> (r: Vec<bool>)
    requires
        range < RANGE_COUNT,
    ensures
        r@.len() == RANGE_COUNT,
        forall|i: int| 0 <= i < RANGE_COUNT ==> r@[i] == (i == range as int),
{
    let mut lines: Vec<bool> = Vec::new();
    let mut i: u8 = 0;
    while i < RANGE_COUNT
        invariant
            i <= RANGE_COUNT,
            lines@.len() == i,
            forall|j: int| 0 <= j < i ==> lines@[j] == (j == range as int),
        decreases RANGE_COUNT - i,
    {
        lines.push(i == range);
        i = i + 1;
    }
    lines
}

} // verus!
