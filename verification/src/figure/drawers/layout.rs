use vstd::prelude::*;
use crate::figure::utilities::axistype::AxisType;

verus! {

/// `a - b`, or 0 where that would be negative.
pub open spec fn clamped_sub(a: int, b: int) -> int {
    if a >= b {
        a - b
    } else {
        0
    }
}

/// `a + b`, or `limit` where that would be more.
pub open spec fn clamped_add(a: int, b: int, limit: int) -> int {
    if a + b <= limit {
        a + b
    } else {
        limit
    }
}

/// Where text of size `(w, h)` is anchored so that its box is centred on
/// `(x, y)`: half the size up and to the left, stopping at the origin.
pub open spec fn centered_anchor_spec(x: u32, y: u32, w: u32, h: u32) -> (int, int) {
    (clamped_sub(x as int, w as int / 2), clamped_sub(y as int, h as int / 2))
}

/// Where a tick value of size `(w, h)` is anchored for a tick at `(x, y)`.
/// On the horizontal axis it is centred on `x` and starts the text's height
/// below `y`; on the vertical axis it ends at `x` and is centred on `y`.
pub open spec fn axis_value_anchor_spec(x: u32, y: u32, w: u32, h: u32, axis: AxisType) -> (
    int,
    int,
) {
    match axis {
        AxisType::AxisX => (
            clamped_sub(x as int, w as int / 2),
            clamped_add(y as int, h as int, u32::MAX as int),
        ),
        AxisType::AxisY => (clamped_sub(x as int, w as int), clamped_sub(y as int, h as int / 2)),
    }
}

/// The anchor of a label or title centred on `(x, y)`.
pub fn centered_anchor(x: u32, y: u32, w: u32, h: u32) -> (r: (u32, u32))
    ensures
        (r.0 as int, r.1 as int) == centered_anchor_spec(x, y, w, h),
{
    (x.saturating_sub(w / 2), y.saturating_sub(h / 2))
}

/// The anchor of a tick value for a tick at `(x, y)` on the given axis.
pub fn axis_value_anchor(x: u32, y: u32, w: u32, h: u32, axis: AxisType) -> (r: (u32, u32))
    ensures
        (r.0 as int, r.1 as int) == axis_value_anchor_spec(x, y, w, h, axis),
{
    match axis {
        AxisType::AxisX => (x.saturating_sub(w / 2), y.saturating_add(h)),
        AxisType::AxisY => (x.saturating_sub(w), y.saturating_sub(h / 2)),
    }
}

/// A centred anchor is never negative, never beyond the point, and exact
/// wherever the point is at least half the text's size from the origin.
pub proof fn lemma_centered_anchor(x: u32, y: u32, w: u32, h: u32)
    ensures
        ({
            let a = centered_anchor_spec(x, y, w, h);
            &&& 0 <= a.0 <= x
            &&& 0 <= a.1 <= y
            &&& x >= w / 2 ==> a.0 == x - w / 2
            &&& y >= h / 2 ==> a.1 == y - h / 2
            &&& x < w / 2 ==> a.0 == 0
            &&& y < h / 2 ==> a.1 == 0
        }),
{
}

/// A tick value on the horizontal axis starts the text's height below the
/// tick, or at the largest coordinate where that would be beyond it, and
/// is centred on the tick; one on the vertical axis ends at the tick and is
/// centred on it. Neither anchor is ever negative.
pub proof fn lemma_axis_value_anchor(x: u32, y: u32, w: u32, h: u32)
    ensures
        ({
            let a = axis_value_anchor_spec(x, y, w, h, AxisType::AxisX);
            &&& y + h <= u32::MAX ==> a.1 == y + h
            &&& y + h > u32::MAX ==> a.1 == u32::MAX
            &&& a.1 >= y
            &&& a.0 == centered_anchor_spec(x, y, w, h).0
        }),
        ({
            let a = axis_value_anchor_spec(x, y, w, h, AxisType::AxisY);
            &&& a.0 == (if x >= w { x - w } else { 0 })
            &&& a.1 == centered_anchor_spec(x, y, w, h).1
        }),
{
}

} // verus!
