use vstd::prelude::*;
use crate::figure::canvas::raster::{Raster, blend, blend_channel, lemma_cell_in_range, lemma_cell_unique};
use crate::figure::canvas::geometry::{
    grid_position,
    grid_step,
    is_grid_position_before,
    lemma_grid_position_in_plot,
    lemma_grid_steps_fit,
    line_point,
    line_steps,
    on_line_before,
    step_offset,
};
use crate::figure::utilities::linetype::LineType;
use crate::figure::utilities::textmask::TextMask;

verus! {

/// One colour channel of text laid over a background.
pub fn mix_channel(bg: u8, fg: u8, c: u8) -> (r: u8)
    ensures
        r == blend_channel(bg, fg, c),
        c == 0 ==> r == bg,
        c == 255 ==> r == fg,
{
    let keep: u32 = 255 - c as u32;
    assert(bg as u32 * keep + fg as u32 * c as u32 <= 255 * 255) by (nonlinear_arith)
        requires bg <= 255, fg <= 255, keep + c == 255, keep >= 0, c >= 0;
    assert(c == 0 ==> bg as u32 * keep + fg as u32 * c as u32 == 255 * bg) by (nonlinear_arith)
        requires keep + c == 255;
    assert(c == 255 ==> bg as u32 * keep + fg as u32 * c as u32 == 255 * fg) by (nonlinear_arith)
        requires keep + c == 255;
    let sum: u32 = bg as u32 * keep + fg as u32 * c as u32 + 127;
    (sum / 255) as u8
}

/// A colour with text of colour `fg` laid over it with coverage `c`.
pub fn mix(bg: [u8; 3], fg: [u8; 3], c: u8) -> (r: [u8; 3])
    ensures
        r == blend(bg, fg, c),
{
    [mix_channel(bg[0], fg[0], c), mix_channel(bg[1], fg[1], c), mix_channel(bg[2], fg[2], c)]
}

/// How far a line that covers `d` in `n` steps has come after `i` steps.
pub fn offset_after(i: u64, d: i64, n: u64) -> (r: i64)
    requires
        i <= n,
        n <= 0xffff_ffff,
        -n <= d <= n,
    ensures
        r == step_offset(i as int, d as int, n as int),
        -n <= r <= n,
{
    if n == 0 {
        return 0;
    }
    let m: u64 = if d >= 0 {
        d as u64
    } else {
        (-d) as u64
    };
    assert(i * m <= 0xffff_ffff * 0xffff_ffff) by (nonlinear_arith)
        requires i <= 0xffff_ffff, m <= 0xffff_ffff, i >= 0, m >= 0;
    assert(i * m <= n * n) by (nonlinear_arith)
        requires i <= n, m <= n, i >= 0, m >= 0;
    let im: u128 = i as u128 * m as u128;
    let top: u128 = 2 * im + n as u128;
    let q: u128 = top / (2 * n as u128);
    proof {
        let t: int = top as int;
        let z: int = 2 * n as int;
        assert(2 * i * m == 2 * (i * m)) by (nonlinear_arith);
        assert(t == 2 * i * m + n);
        vstd::arithmetic::div_mod::lemma_fundamental_div_mod(t, z);
        vstd::arithmetic::div_mod::lemma_mod_bound(t, z);
        let qq: int = t / z;
        let rr: int = t % z;
        assert(qq <= n) by (nonlinear_arith)
            requires
                t == z * qq + rr,
                rr >= 0,
                z == 2 * n,
                t == 2 * (i * m) + n,
                i * m <= n * n,
                n > 0,
        ;
        assert(q == qq);
    }
    if d >= 0 {
        q as i64
    } else {
        -(q as i64)
    }
}

/// A raster canvas: a buffer of `width * height` colours, row after row,
/// and the margin that bounds its plot area.
pub struct PixelCanvas {
    width: u32,
    height: u32,
    margin: u32,
    buffer: Vec<[u8; 3]>,
}

impl View for PixelCanvas {
    type V = Raster;

    closed spec fn view(&self) -> Raster {
        Raster {
            width: self.width as nat,
            height: self.height as nat,
            margin: self.margin as nat,
            pixels: self.buffer@,
        }
    }
}

impl PixelCanvas {
    /// The invariant of a canvas: that of its picture.
    pub open spec fn wf(&self) -> bool {
        self@.wf()
    }

    /// A canvas with every pixel black. There is none where the margin
    /// would leave no plot area, or where the buffer cannot be addressed.
    pub fn new(width: u32, height: u32, margin: u32) -> (r: Option<PixelCanvas>)
        ensures
            r is Some <==> 2 * margin < width && 2 * margin < height && width * height
                <= usize::MAX,
            r matches Some(c) ==> {
                &&& c.wf()
                &&& c@.width == width
                &&& c@.height == height
                &&& c@.margin == margin
                &&& forall|x: int, y: int| c@.contains(x, y) ==> #[trigger] c@.pixel(x, y) == [0u8, 0u8, 0u8]
            },
    {
        if margin >= width - width / 2 || margin >= height - height / 2 {
            return None;
        }
        assert(width as u64 * height as u64 <= 0xffff_ffff * 0xffff_ffff) by (nonlinear_arith)
            requires width as u64 <= 0xffff_ffff, height as u64 <= 0xffff_ffff;
        let cells: u64 = width as u64 * height as u64;
        if cells > usize::MAX as u64 {
            return None;
        }
        let n: usize = cells as usize;
        let mut buffer: Vec<[u8; 3]> = Vec::new();
        let mut i: usize = 0;
        while i < n
            invariant
                i <= n,
                buffer@.len() == i,
                forall|k: int| 0 <= k < i ==> buffer@[k] == [0u8, 0u8, 0u8],
            decreases n - i,
        {
            buffer.push([0u8, 0u8, 0u8]);
            i += 1;
        }
        let c = PixelCanvas { width, height, margin, buffer };
        proof {
            assert forall|x: int, y: int| c@.contains(x, y) implies #[trigger] c@.pixel(x, y)
                == [0u8, 0u8, 0u8] by {
                lemma_cell_in_range(width as int, height as int, x, y);
            }
        }
        Some(c)
    }

    /// The canvas's width.
    pub fn width(&self) -> (r: u32)
        ensures
            r == self@.width,
    {
        self.width
    }

    /// The canvas's height.
    pub fn height(&self) -> (r: u32)
        ensures
            r == self@.height,
    {
        self.height
    }

    /// The width of the border around the plot area.
    pub fn margin(&self) -> (r: u32)
        ensures
            r == self@.margin,
    {
        self.margin
    }

    /// The colour at `(x, y)`, or nothing where that is no position of the
    /// canvas.
    pub fn get_pixel(&self, x: u32, y: u32) -> (r: Option<[u8; 3]>)
        requires
            self.wf(),
        ensures
            r == if self@.contains(x as int, y as int) {
                Some(self@.pixel(x as int, y as int))
            } else {
                None
            },
    {
        if x >= self.width || y >= self.height {
            return None;
        }
        proof {
            lemma_cell_in_range(self.width as int, self.height as int, x as int, y as int);
        }
        let cells: usize = self.buffer.len();
        assert(y * self.width + x < cells);
        let i: usize = y as usize * self.width as usize + x as usize;
        Some(self.buffer[i])
    }

    /// Writes one pixel. A position outside the canvas is skipped.
    pub fn draw_pixel(&mut self, x: u32, y: u32, color: [u8; 3])
        requires
            old(self).wf(),
        ensures
            final(self).wf(),
            old(self)@.pixel_set(final(self)@, x as int, y as int, color),
    {
        if x >= self.width || y >= self.height {
            return ;
        }
        proof {
            lemma_cell_in_range(self.width as int, self.height as int, x as int, y as int);
        }
        let cells: usize = self.buffer.len();
        assert(y * self.width + x < cells);
        let i: usize = y as usize * self.width as usize + x as usize;
        self.buffer.set(i, color);
        proof {
            let w = self.width as int;
            assert forall|x2: int, y2: int| old(self)@.contains(x2, y2) implies #[trigger] self@.pixel(
                x2,
                y2,
            ) == if x2 == x && y2 == y {
                color
            } else {
                old(self)@.pixel(x2, y2)
            } by {
                lemma_cell_in_range(w, self.height as int, x2, y2);
                if y2 * w + x2 == y * w + x {
                    lemma_cell_unique(w, x2, y2, x as int, y as int);
                }
            }
        }
    }

    /// Lays a piece of rendered text over the canvas, the top left corner
    /// of its box at `(x, y)`. What falls outside the canvas is skipped.
    pub fn draw_text(&mut self, x: u32, y: u32, text: &TextMask, color: [u8; 3])
        requires
            old(self).wf(),
            text.wf(),
        ensures
            final(self).wf(),
            old(self)@.text_drawn(final(self)@, x as int, y as int, text@, color),
    {
        let ghost before = self@;
        let tw: u32 = text.width();
        let th: u32 = text.height();
        let mut j: u32 = 0;
        while j < th
            invariant
                j <= th,
                tw == text@.width,
                th == text@.height,
                text.wf(),
                self.wf(),
                before.same_frame(self@),
                forall|px: int, py: int|
                    before.contains(px, py) ==> #[trigger] self@.pixel(px, py) == if text@.covers(
                        px - x,
                        py - y,
                    ) && py - y < j {
                        blend(before.pixel(px, py), color, text@.at(px - x, py - y))
                    } else {
                        before.pixel(px, py)
                    },
            decreases th - j,
        {
            let mut i: u32 = 0;
            while i < tw
                invariant
                    i <= tw,
                    j < th,
                    tw == text@.width,
                    th == text@.height,
                    text.wf(),
                    self.wf(),
                    before.same_frame(self@),
                    forall|px: int, py: int|
                        before.contains(px, py) ==> #[trigger] self@.pixel(px, py) == if text@.covers(
                            px - x,
                            py - y,
                        ) && (py - y < j || (py - y == j && px - x < i)) {
                            blend(before.pixel(px, py), color, text@.at(px - x, py - y))
                        } else {
                            before.pixel(px, py)
                        },
                decreases tw - i,
            {
                let px: u64 = x as u64 + i as u64;
                let py: u64 = y as u64 + j as u64;
                if px < self.width as u64 && py < self.height as u64 {
                    let ghost mid = self@;
                    let cover = text.coverage_at(i, j);
                    let under = self.get_pixel(px as u32, py as u32);
                    if let (Some(c), Some(bg)) = (cover, under) {
                        self.draw_pixel(px as u32, py as u32, mix(bg, color, c));
                    }
                    assert(mid.pixel_set(self@, px as int, py as int, blend(before.pixel(px as int, py as int), color, text@.at(i as int, j as int))));
                }
                i += 1;
            }
            j += 1;
        }
    }

    /// Draws the line from `(x1, y1)` to `(x2, y2)`, both ends included,
    /// one pixel wide. What falls outside the canvas is skipped.
    pub fn draw_line(&mut self, x1: i32, y1: i32, x2: i32, y2: i32, color: [u8; 3], style: LineType)
        requires
            old(self).wf(),
        ensures
            final(self).wf(),
            old(self)@.line_drawn(
                final(self)@,
                x1 as int,
                y1 as int,
                x2 as int,
                y2 as int,
                color,
                style,
            ),
    {
        let ghost before = self@;
        let dx: i64 = x2 as i64 - x1 as i64;
        let dy: i64 = y2 as i64 - y1 as i64;
        let across: u64 = if dx >= 0 {
            dx as u64
        } else {
            (-dx) as u64
        };
        let down: u64 = if dy >= 0 {
            dy as u64
        } else {
            (-dy) as u64
        };
        let n: u64 = if across >= down {
            across
        } else {
            down
        };
        assert(n == line_steps(x1 as int, y1 as int, x2 as int, y2 as int));
        let mut i: u64 = 0;
        while i <= n
            invariant
                i <= n + 1,
                n <= 0xffff_ffff,
                n == line_steps(x1 as int, y1 as int, x2 as int, y2 as int),
                dx == x2 - x1,
                dy == y2 - y1,
                -n <= dx <= n,
                -n <= dy <= n,
                self.wf(),
                before.same_frame(self@),
                forall|px: int, py: int|
                    before.contains(px, py) ==> #[trigger] self@.pixel(px, py) == if on_line_before(
                        x1 as int,
                        y1 as int,
                        x2 as int,
                        y2 as int,
                        style,
                        i as int,
                        px,
                        py,
                    ) {
                        color
                    } else {
                        before.pixel(px, py)
                    },
            decreases n + 1 - i,
        {
            let ghost mid = self@;
            let px: i64 = x1 as i64 + offset_after(i, dx, n);
            let py: i64 = y1 as i64 + offset_after(i, dy, n);
            let drawn: bool = match style {
                LineType::Solid => true,
                LineType::Dashed => (i / 4) % 2 == 0,
            };
            assert(drawn == style.draws(i as int));
            assert(line_point(x1 as int, y1 as int, x2 as int, y2 as int, i as int) == (
                px as int,
                py as int,
            ));
            if drawn && 0 <= px && px < self.width as i64 && 0 <= py && py < self.height as i64 {
                self.draw_pixel(px as u32, py as u32, color);
            }
            assert forall|qx: int, qy: int| before.contains(qx, qy) implies #[trigger] self@.pixel(
                qx,
                qy,
            ) == if on_line_before(
                x1 as int,
                y1 as int,
                x2 as int,
                y2 as int,
                style,
                i as int + 1,
                qx,
                qy,
            ) {
                color
            } else {
                before.pixel(qx, qy)
            } by {
                let was = on_line_before(
                    x1 as int,
                    y1 as int,
                    x2 as int,
                    y2 as int,
                    style,
                    i as int,
                    qx,
                    qy,
                );
                let now = on_line_before(
                    x1 as int,
                    y1 as int,
                    x2 as int,
                    y2 as int,
                    style,
                    i as int + 1,
                    qx,
                    qy,
                );
                let hit = drawn && qx == px && qy == py;
                assert(now == (was || hit));
                assert(mid.pixel(qx, qy) == if was { color } else { before.pixel(qx, qy) });
            }
            i += 1;
        }
    }

    /// Draws one horizontal grid line: row `y` from one edge of the plot
    /// area to the other.
    fn draw_row(&mut self, y: u32, color: [u8; 3])
        requires
            old(self).wf(),
        ensures
            final(self).wf(),
            old(self)@.same_frame(final(self)@),
            forall|px: int, py: int|
                old(self)@.contains(px, py) ==> #[trigger] final(self)@.pixel(px, py) == if py == y
                    && old(self)@.margin <= px < old(self)@.width - old(self)@.margin {
                    color
                } else {
                    old(self)@.pixel(px, py)
                },
    {
        let ghost before = self@;
        let right: u32 = self.width - self.margin;
        let mut x: u32 = self.margin;
        while x < right
            invariant
                self.margin <= x <= right,
                right == before.width - before.margin,
                self.wf(),
                before.same_frame(self@),
                forall|px: int, py: int|
                    before.contains(px, py) ==> #[trigger] self@.pixel(px, py) == if py == y
                        && before.margin <= px < x {
                        color
                    } else {
                        before.pixel(px, py)
                    },
            decreases right - x,
        {
            self.draw_pixel(x, y, color);
            x += 1;
        }
    }

    /// Draws one vertical grid line: column `x` from one edge of the plot
    /// area to the other.
    fn draw_column(&mut self, x: u32, color: [u8; 3])
        requires
            old(self).wf(),
        ensures
            final(self).wf(),
            old(self)@.same_frame(final(self)@),
            forall|px: int, py: int|
                old(self)@.contains(px, py) ==> #[trigger] final(self)@.pixel(px, py) == if px == x
                    && old(self)@.margin <= py < old(self)@.height - old(self)@.margin {
                    color
                } else {
                    old(self)@.pixel(px, py)
                },
    {
        let ghost before = self@;
        let bottom: u32 = self.height - self.margin;
        let mut y: u32 = self.margin;
        while y < bottom
            invariant
                self.margin <= y <= bottom,
                bottom == before.height - before.margin,
                self.wf(),
                before.same_frame(self@),
                forall|px: int, py: int|
                    before.contains(px, py) ==> #[trigger] self@.pixel(px, py) == if px == x
                        && before.margin <= py < y {
                        color
                    } else {
                        before.pixel(px, py)
                    },
            decreases bottom - y,
        {
            self.draw_pixel(x, y, color);
            y += 1;
        }
    }

    /// Draws a grid over the plot area: `counts[0]` horizontal lines and
    /// `counts[1]` vertical ones. The lines of one direction are one step
    /// apart, the step being the plot area's extent divided by the number
    /// of intervals and rounded down; the last interval takes what is left.
    /// With as many lines as units to divide, or more, the step is 0 and
    /// all of them fall on the first row or column of the plot area.
    pub fn draw_grid(&mut self, counts: &[u32; 2], color: [u8; 3])
        requires
            old(self).wf(),
        ensures
            final(self).wf(),
            old(self)@.grid_drawn(final(self)@, counts[0] as int, counts[1] as int, color),
    {
        let ghost before = self@;
        let rows: u32 = counts[0];
        let columns: u32 = counts[1];
        let margin: u32 = self.margin;
        let tall: u32 = self.height - 2 * margin;
        let wide: u32 = self.width - 2 * margin;
        let row_step: u32 = (tall as u64 / (rows as u64 + 1)) as u32;
        let column_step: u32 = (wide as u64 / (columns as u64 + 1)) as u32;
        let mut k: u32 = 0;
        let mut at: u32 = margin;
        proof {
            lemma_grid_steps_fit(tall as int, rows as int, 0);
            assert((0 + 1) * grid_step(tall as int, rows as int) == grid_step(tall as int, rows as int))
                by (nonlinear_arith);
            assert(0 * grid_step(tall as int, rows as int) == 0) by (nonlinear_arith);
        }
        while k < rows
            invariant
                k <= rows,
                margin == before.margin,
                tall == before.height - 2 * before.margin,
                row_step == grid_step(tall as int, rows as int),
                at == margin + k * row_step,
                self.wf(),
                before.same_frame(self@),
                forall|px: int, py: int|
                    before.contains(px, py) ==> #[trigger] self@.pixel(px, py) == if before.in_plot(
                        px,
                        py,
                    ) && is_grid_position_before(
                        margin as int,
                        tall as int,
                        rows as int,
                        k as int,
                        py,
                    ) {
                        color
                    } else {
                        before.pixel(px, py)
                    },
            decreases rows - k,
        {
            let ghost mid = self@;
            proof {
                lemma_grid_steps_fit(tall as int, rows as int, k as int);
                lemma_grid_position_in_plot(margin as int, tall as int, rows as int, k as int);
                assert((k + 1) * row_step == k * row_step + row_step) by (nonlinear_arith);
            }
            at = at + row_step;
            assert(at == grid_position(margin as int, tall as int, rows as int, k as int));
            self.draw_row(at, color);
            assert forall|px: int, py: int| before.contains(px, py) implies #[trigger] self@.pixel(
                px,
                py,
            ) == if before.in_plot(px, py) && is_grid_position_before(
                margin as int,
                tall as int,
                rows as int,
                k as int + 1,
                py,
            ) {
                color
            } else {
                before.pixel(px, py)
            } by {
                let was = is_grid_position_before(
                    margin as int,
                    tall as int,
                    rows as int,
                    k as int,
                    py,
                );
                let now = is_grid_position_before(
                    margin as int,
                    tall as int,
                    rows as int,
                    k as int + 1,
                    py,
                );
                assert(now == (was || py == at));
                assert(mid.pixel(px, py) == if before.in_plot(px, py) && was {
                    color
                } else {
                    before.pixel(px, py)
                });
            }
            k += 1;
        }
        let ghost rowed = self@;
        let mut k: u32 = 0;
        let mut at: u32 = margin;
        proof {
            assert(0 * grid_step(wide as int, columns as int) == 0) by (nonlinear_arith);
        }
        while k < columns
            invariant
                k <= columns,
                margin == before.margin,
                wide == before.width - 2 * before.margin,
                column_step == grid_step(wide as int, columns as int),
                at == margin + k * column_step,
                self.wf(),
                before.same_frame(self@),
                before.same_frame(rowed),
                forall|px: int, py: int|
                    before.contains(px, py) ==> #[trigger] self@.pixel(px, py) == if before.in_plot(
                        px,
                        py,
                    ) && is_grid_position_before(
                        margin as int,
                        wide as int,
                        columns as int,
                        k as int,
                        px,
                    ) {
                        color
                    } else {
                        rowed.pixel(px, py)
                    },
            decreases columns - k,
        {
            let ghost mid = self@;
            proof {
                lemma_grid_steps_fit(wide as int, columns as int, k as int);
                lemma_grid_position_in_plot(margin as int, wide as int, columns as int, k as int);
                assert((k + 1) * column_step == k * column_step + column_step) by (nonlinear_arith);
            }
            at = at + column_step;
            assert(at == grid_position(margin as int, wide as int, columns as int, k as int));
            self.draw_column(at, color);
            assert forall|px: int, py: int| before.contains(px, py) implies #[trigger] self@.pixel(
                px,
                py,
            ) == if before.in_plot(px, py) && is_grid_position_before(
                margin as int,
                wide as int,
                columns as int,
                k as int + 1,
                px,
            ) {
                color
            } else {
                rowed.pixel(px, py)
            } by {
                let was = is_grid_position_before(
                    margin as int,
                    wide as int,
                    columns as int,
                    k as int,
                    px,
                );
                let now = is_grid_position_before(
                    margin as int,
                    wide as int,
                    columns as int,
                    k as int + 1,
                    px,
                );
                assert(now == (was || px == at));
                assert(mid.pixel(px, py) == if before.in_plot(px, py) && was {
                    color
                } else {
                    rowed.pixel(px, py)
                });
            }
            k += 1;
        }
    }
}

} // verus!
