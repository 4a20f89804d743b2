use vstd::prelude::*;
use vstd::arithmetic::div_mod::{lemma_div_is_ordered, lemma_fundamental_div_mod_converse};
use crate::figure::utilities::linetype::LineType;

verus! {

/// The distance between two coordinates.
pub open spec fn distance(a: int, b: int) -> int {
    if a >= b {
        a - b
    } else {
        b - a
    }
}

/// The number of steps of the line from `(x1, y1)` to `(x2, y2)`: the
/// longer of its two extents. The line has one point more than steps.
pub open spec fn line_steps(x1: int, y1: int, x2: int, y2: int) -> int {
    if distance(x1, x2) >= distance(y1, y2) {
        distance(x1, x2)
    } else {
        distance(y1, y2)
    }
}

/// `i * d / n` rounded to the nearest integer, a half rounded away from 0:
/// how far a line that covers `d` in `n` steps has come after `i` of them.
pub open spec fn step_offset(i: int, d: int, n: int) -> int {
    if n <= 0 {
        0
    } else if d >= 0 {
        (2 * i * d + n) / (2 * n)
    } else {
        -((2 * i * (-d) + n) / (2 * n))
    }
}

/// The `i`-th point of the line from `(x1, y1)` to `(x2, y2)`.
pub open spec fn line_point(x1: int, y1: int, x2: int, y2: int, i: int) -> (int, int) {
    let n = line_steps(x1, y1, x2, y2);
    (x1 + step_offset(i, x2 - x1, n), y1 + step_offset(i, y2 - y1, n))
}

/// Whether `(x, y)` is one of the first `count` points of the line and is
/// drawn in the given style.
pub open spec fn on_line_before(
    x1: int,
    y1: int,
    x2: int,
    y2: int,
    style: LineType,
    count: int,
    x: int,
    y: int,
) -> bool {
    exists|i: int|
        0 <= i < count && style.draws(i) && #[trigger] line_point(x1, y1, x2, y2, i) == (x, y)
}

/// Whether `(x, y)` is a point of the line that is drawn in the given
/// style.
pub open spec fn on_line(x1: int, y1: int, x2: int, y2: int, style: LineType, x: int, y: int) -> bool {
    on_line_before(x1, y1, x2, y2, style, line_steps(x1, y1, x2, y2) + 1, x, y)
}

/// A line that covers `d` in `n` steps has covered nothing before the
/// first step and all of it after the last.
pub proof fn lemma_step_offset_ends(d: int, n: int)
    requires
        n > 0,
    ensures
        step_offset(0, d, n) == 0,
        step_offset(n, d, n) == d,
{
    let m = if d >= 0 { d } else { -d };
    assert(2 * 0 * m + n == 0 * (2 * n) + n) by (nonlinear_arith);
    lemma_fundamental_div_mod_converse(2 * 0 * m + n, 2 * n, 0, n);
    assert(2 * n * m + n == m * (2 * n) + n) by (nonlinear_arith);
    lemma_fundamental_div_mod_converse(2 * n * m + n, 2 * n, m, n);
}

/// One step moves a line by at most one unit along an axis, and never
/// against the direction of the line.
pub proof fn lemma_step_offset_continuous(i: int, d: int, n: int)
    requires
        n > 0,
        0 <= i,
        -n <= d <= n,
    ensures
        d >= 0 ==> step_offset(i, d, n) <= step_offset(i + 1, d, n) <= step_offset(i, d, n) + 1,
        d < 0 ==> step_offset(i, d, n) - 1 <= step_offset(i + 1, d, n) <= step_offset(i, d, n),
{
    let m = if d >= 0 { d } else { -d };
    let a = 2 * i * m + n;
    let b = 2 * (i + 1) * m + n;
    assert(b == a + 2 * m) by (nonlinear_arith)
        requires a == 2 * i * m + n, b == 2 * (i + 1) * m + n;
    lemma_div_is_ordered(a, b, 2 * n);
    lemma_div_is_ordered(b, a + 2 * n, 2 * n);
    let q = a / (2 * n);
    let r = a % (2 * n);
    assert(a == (2 * n) * q + r && 0 <= r < 2 * n) by {
        vstd::arithmetic::div_mod::lemma_fundamental_div_mod(a, 2 * n);
        vstd::arithmetic::div_mod::lemma_mod_bound(a, 2 * n);
    }
    assert(a + 2 * n == (q + 1) * (2 * n) + r) by (nonlinear_arith)
        requires a == (2 * n) * q + r;
    lemma_fundamental_div_mod_converse(a + 2 * n, 2 * n, q + 1, r);
}

/// Along its longer extent a line moves by exactly one unit in each step.
pub proof fn lemma_step_offset_major(i: int, d: int, n: int)
    requires
        n > 0,
        0 <= i,
        d == n || d == -n,
    ensures
        step_offset(i, d, n) == if d >= 0 { i } else { -i },
{
    assert(2 * i * n + n == i * (2 * n) + n) by (nonlinear_arith);
    lemma_fundamental_div_mod_converse(2 * i * n + n, 2 * n, i, n);
}

/// A line starts at its first end and stops at its second.
pub proof fn lemma_line_ends(x1: int, y1: int, x2: int, y2: int)
    ensures
        line_point(x1, y1, x2, y2, 0) == (x1, y1),
        line_point(x1, y1, x2, y2, line_steps(x1, y1, x2, y2)) == (x2, y2),
{
    let n = line_steps(x1, y1, x2, y2);
    if n > 0 {
        lemma_step_offset_ends(x2 - x1, n);
        lemma_step_offset_ends(y2 - y1, n);
    }
}

/// A line has no gap: each of its points is next to the one before it,
/// side by side or corner to corner, and is not that same point.
pub proof fn lemma_line_connected(x1: int, y1: int, x2: int, y2: int, i: int)
    requires
        0 <= i < line_steps(x1, y1, x2, y2),
    ensures
        ({
            let p = line_point(x1, y1, x2, y2, i);
            let q = line_point(x1, y1, x2, y2, i + 1);
            &&& distance(p.0, q.0) <= 1
            &&& distance(p.1, q.1) <= 1
            &&& p != q
        }),
{
    let n = line_steps(x1, y1, x2, y2);
    lemma_step_offset_continuous(i, x2 - x1, n);
    lemma_step_offset_continuous(i, y2 - y1, n);
    if distance(x1, x2) == n {
        lemma_step_offset_major(i, x2 - x1, n);
        lemma_step_offset_major(i + 1, x2 - x1, n);
    } else {
        lemma_step_offset_major(i, y2 - y1, n);
        lemma_step_offset_major(i + 1, y2 - y1, n);
    }
}

/// The distance between two neighbouring grid lines when `count` lines
/// divide `extent` units: the extent divided by the number of intervals,
/// rounded down. What is left over widens the last interval.
pub open spec fn grid_step(extent: int, count: int) -> int {
    extent / (count + 1)
}

/// The position of grid line `k`, counted from 0, where `count` lines
/// divide the `extent` units that start at `margin`.
pub open spec fn grid_position(margin: int, extent: int, count: int, k: int) -> int {
    margin + (k + 1) * grid_step(extent, count)
}

/// Whether one of the first `upto` grid lines is at position `p`.
pub open spec fn is_grid_position_before(margin: int, extent: int, count: int, upto: int, p: int) -> bool {
    exists|k: int| 0 <= k < upto && #[trigger] grid_position(margin, extent, count, k) == p
}

/// Whether one of the `count` grid lines is at position `p`.
pub open spec fn is_grid_position(margin: int, extent: int, count: int, p: int) -> bool {
    is_grid_position_before(margin, extent, count, count, p)
}

/// All the intervals but the last have the length of the step, and
/// together with one more step they do not exceed the extent.
pub proof fn lemma_grid_steps_fit(extent: int, count: int, k: int)
    requires
        0 <= extent,
        0 <= k <= count,
    ensures
        0 <= grid_step(extent, count),
        0 <= (k + 1) * grid_step(extent, count) <= extent,
        grid_step(extent, count) >= 1 ==> k * grid_step(extent, count) < extent,
{
    let s = grid_step(extent, count);
    let c = count + 1;
    vstd::arithmetic::div_mod::lemma_fundamental_div_mod(extent, c);
    vstd::arithmetic::div_mod::lemma_mod_bound(extent, c);
    assert(extent == c * s + extent % c);
    assert(s >= 0) by (nonlinear_arith)
        requires extent == c * s + extent % c, 0 <= extent, extent % c < c, c > 0;
    assert((k + 1) * s <= c * s) by (nonlinear_arith)
        requires k + 1 <= c, s >= 0;
    assert((k + 1) * s >= 0) by (nonlinear_arith)
        requires k + 1 >= 0, s >= 0;
    assert((k + 1) * s == k * s + s) by (nonlinear_arith);
}

/// Every grid line lies in the plot area.
pub proof fn lemma_grid_position_in_plot(margin: int, extent: int, count: int, k: int)
    requires
        1 <= extent,
        0 <= k < count,
    ensures
        margin <= grid_position(margin, extent, count, k) < margin + extent,
{
    lemma_grid_steps_fit(extent, count, k);
    lemma_grid_steps_fit(extent, count, k + 1);
    let s = grid_step(extent, count);
    assert((k + 2) * s == (k + 1) * s + s) by (nonlinear_arith);
    if s == 0 {
        assert((k + 1) * s == 0) by (nonlinear_arith)
            requires s == 0;
    }
}

/// Where there are fewer grid lines than units to divide: each line lies
/// strictly between the two edges of the plot area, different lines are at
/// different positions, in the order of their numbers, neighbouring lines
/// are exactly one step apart, and the interval after the last line is the
/// step and what the division left over.
pub proof fn lemma_grid_lines(margin: int, extent: int, count: int, j: int, k: int)
    requires
        0 <= count < extent,
        0 <= j < count,
        0 <= k < count,
    ensures
        grid_step(extent, count) >= 1,
        margin < grid_position(margin, extent, count, j) < margin + extent,
        j < k ==> grid_position(margin, extent, count, j) < grid_position(margin, extent, count, k),
        j != k ==> grid_position(margin, extent, count, j) != grid_position(margin, extent, count, k),
        grid_position(margin, extent, count, j + 1) - grid_position(margin, extent, count, j)
            == grid_step(extent, count),
        margin + extent - grid_position(margin, extent, count, count - 1) == grid_step(extent, count)
            + extent % (count + 1),
{
    let s = grid_step(extent, count);
    let c = count + 1;
    vstd::arithmetic::div_mod::lemma_fundamental_div_mod(extent, c);
    vstd::arithmetic::div_mod::lemma_mod_bound(extent, c);
    assert(s >= 1) by (nonlinear_arith)
        requires extent == c * s + extent % c, extent >= c, 0 <= extent % c < c, c > 0;
    lemma_grid_position_in_plot(margin, extent, count, j);
    assert((j + 1) * s >= 1) by (nonlinear_arith)
        requires j + 1 >= 1, s >= 1;
    assert(j < k ==> (j + 1) * s < (k + 1) * s) by (nonlinear_arith)
        requires s >= 1;
    assert(k < j ==> (k + 1) * s < (j + 1) * s) by (nonlinear_arith)
        requires s >= 1;
    assert((j + 2) * s == (j + 1) * s + s) by (nonlinear_arith);
    assert((count - 1 + 1) * s + s == c * s) by (nonlinear_arith)
        requires c == count + 1;
}

} // verus!
