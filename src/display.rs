//! Placement of a reading on the display: the text and the ohm symbol,
//! centred as one line, or the idle label.

use vstd::prelude::*;

verus! {

/// Horizontal gap, in pixels, between the reading and the ohm symbol.
pub const SYMBOL_GAP: i64 = 5;

/// Left edge, in pixels, of the idle label.
pub const IDLE_LABEL_X: i64 = 24;

/// Drop, in pixels, of the idle label's baseline below the middle row.
pub const IDLE_LABEL_DROP: i64 = 10;

/// Where the parts of a reading are drawn.
pub struct Layout {
    /// Left edge of the text.
    pub text_x: i64,
    /// Baseline of the text.
    pub baseline_y: i64,
    /// Left edge of the symbol.
    pub symbol_x: i64,
    /// Top edge of the symbol.
    pub symbol_y: i64,
}

/// Half of `x`, rounded toward zero.
pub open spec fn half_toward_zero(x: int) -> int {
    if x >= 0 { x / 2 } else { -((-x) / 2) }
}

/// Centres the text followed by the symbol on a display of the given size.
///
/// The line is `text_w + SYMBOL_GAP + symbol_w` wide and starts halfway
/// into the free width; the baseline lies halfway between the middle row and
/// the row `text_h` below it; the symbol's bottom rests on the baseline.
pub fn center_layout(
    display_w: u32,
    display_h: u32,
    text_w: u32,
    text_h: u32,
    symbol_w: u32,
    symbol_h: u32,
) -> (r: Layout)
    ensures
        r.text_x == half_toward_zero(display_w - (text_w + SYMBOL_GAP + symbol_w)),
        r.baseline_y == (display_h + text_h) / 2,
        r.symbol_x == r.text_x + text_w + SYMBOL_GAP,
        r.symbol_y == r.baseline_y - symbol_h,
{
    let total = text_w as i64 + SYMBOL_GAP + symbol_w as i64;
    let free = display_w as i64 - total;
    let text_x: i64 = if free >= 0 { free / 2 } else { -((-free) / 2) };
    let baseline_y = (display_h as i64 + text_h as i64) / 2;
    Layout {
        text_x,
        baseline_y,
        symbol_x: text_x + text_w as i64 + SYMBOL_GAP,
        symbol_y: baseline_y - symbol_h as i64,
    }
}

/// Baseline origin of the idle label on a display `display_h` pixels high.
pub fn idle_label_origin(display_h: u32) -> (r: (i64, i64))
    ensures
        r.0 == IDLE_LABEL_X,
        r.1 == display_h / 2 + IDLE_LABEL_DROP,
{
    (IDLE_LABEL_X, display_h as i64 / 2 + IDLE_LABEL_DROP)
}

} // verus!
