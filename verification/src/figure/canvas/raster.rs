use vstd::prelude::*;
use crate::figure::canvas::geometry::{is_grid_position, on_line};
use crate::figure::utilities::linetype::LineType;
use crate::figure::utilities::textmask::Mask;

verus! {

/// How much of a colour channel shows after text of channel value `fg` is
/// laid over `bg` with coverage `c`: the two mixed in the ratio `c` to
/// `255 - c`, rounded to the nearest value.
pub open spec fn blend_channel(bg: u8, fg: u8, c: u8) -> u8 {
    ((bg * (255 - c) + fg * c + 127) / 255) as u8
}

/// Where text covers nothing the background shows as it was, and where it
/// covers all the text's colour shows alone.
pub proof fn lemma_blend_channel_ends(bg: u8, fg: u8)
    ensures
        blend_channel(bg, fg, 0) == bg,
        blend_channel(bg, fg, 255) == fg,
{
    assert((bg * 255 + fg * 0 + 127) / 255 == bg as int) by (nonlinear_arith)
        requires 0 <= bg <= 255;
    assert((bg * 0 + fg * 255 + 127) / 255 == fg as int) by (nonlinear_arith)
        requires 0 <= fg <= 255;
}

/// A mixed channel lies between the background's and the text's.
pub proof fn lemma_blend_channel_between(bg: u8, fg: u8, c: u8)
    ensures
        bg <= fg ==> bg <= blend_channel(bg, fg, c) <= fg,
        fg <= bg ==> fg <= blend_channel(bg, fg, c) <= bg,
{
    let k: int = 255 - c;
    let t: int = bg * k + fg * c + 127;
    let lo: int = if bg <= fg { bg as int } else { fg as int };
    let hi: int = if bg <= fg { fg as int } else { bg as int };
    assert(lo * 255 <= bg * k + fg * c <= hi * 255) by (nonlinear_arith)
        requires k + c == 255, k >= 0, c >= 0, lo <= bg <= hi, lo <= fg <= hi;
    assert(lo <= t / 255 <= hi) by (nonlinear_arith)
        requires lo * 255 + 127 <= t <= hi * 255 + 127;
}

/// A colour with text colour `fg` laid over it with coverage `c`.
pub open spec fn blend(bg: [u8; 3], fg: [u8; 3], c: u8) -> [u8; 3] {
    [blend_channel(bg[0], fg[0], c), blend_channel(bg[1], fg[1], c), blend_channel(bg[2], fg[2], c)]
}

/// The mathematical picture of a raster canvas: its frame and its pixels,
/// row after row.
pub struct Raster {
    pub width: nat,
    pub height: nat,
    pub margin: nat,
    pub pixels: Seq<[u8; 3]>,
}

impl Raster {
    /// The margin leaves a plot area that is not empty, and there is one
    /// pixel for each position.
    pub open spec fn wf(self) -> bool {
        &&& 2 * self.margin < self.width
        &&& 2 * self.margin < self.height
        &&& self.pixels.len() == self.width * self.height
    }

    /// Whether `(x, y)` is a position of the canvas.
    pub open spec fn contains(self, x: int, y: int) -> bool {
        0 <= x < self.width && 0 <= y < self.height
    }

    /// Whether `(x, y)` lies in the plot area, inside the margin on all
    /// four sides.
    pub open spec fn in_plot(self, x: int, y: int) -> bool {
        &&& self.margin <= x < self.width - self.margin
        &&& self.margin <= y < self.height - self.margin
    }

    /// The colour at `(x, y)`.
    pub open spec fn pixel(self, x: int, y: int) -> [u8; 3] {
        self.pixels[y * self.width + x]
    }

    /// Same width, height and margin.
    pub open spec fn same_frame(self, other: Raster) -> bool {
        &&& self.width == other.width
        &&& self.height == other.height
        &&& self.margin == other.margin
        &&& self.pixels.len() == other.pixels.len()
    }

    /// `after` is this raster with the colour of `(px, py)` replaced, or
    /// this raster unchanged where `(px, py)` is no position of it.
    pub open spec fn pixel_set(self, after: Raster, px: int, py: int, color: [u8; 3]) -> bool {
        &&& self.same_frame(after)
        &&& forall|x: int, y: int|
            self.contains(x, y) ==> #[trigger] after.pixel(x, y) == if x == px && y == py {
                color
            } else {
                self.pixel(x, y)
            }
    }

    /// `after` is this raster with the plot area filled with one colour and
    /// the margin left as it was.
    pub open spec fn plot_filled(self, after: Raster, color: [u8; 3]) -> bool {
        &&& self.same_frame(after)
        &&& forall|x: int, y: int|
            self.contains(x, y) ==> #[trigger] after.pixel(x, y) == if self.in_plot(x, y) {
                color
            } else {
                self.pixel(x, y)
            }
    }

    /// `after` is this raster with a piece of text laid over it, the
    /// text's box starting at `(ax, ay)`. Each pixel under the box is mixed
    /// with `color` by the coverage of its cell; all others are left.
    pub open spec fn text_drawn(self, after: Raster, ax: int, ay: int, text: Mask, color: [u8; 3]) -> bool {
        &&& self.same_frame(after)
        &&& forall|x: int, y: int|
            self.contains(x, y) ==> #[trigger] after.pixel(x, y) == if text.covers(x - ax, y - ay) {
                blend(self.pixel(x, y), color, text.at(x - ax, y - ay))
            } else {
                self.pixel(x, y)
            }
    }

    /// `after` is this raster with the line from `(x1, y1)` to `(x2, y2)`
    /// drawn on it in the given style. The points of the line that are no
    /// positions of the canvas are left out.
    pub open spec fn line_drawn(
        self,
        after: Raster,
        x1: int,
        y1: int,
        x2: int,
        y2: int,
        color: [u8; 3],
        style: LineType,
    ) -> bool {
        &&& self.same_frame(after)
        &&& forall|x: int, y: int|
            self.contains(x, y) ==> #[trigger] after.pixel(x, y) == if on_line(
                x1,
                y1,
                x2,
                y2,
                style,
                x,
                y,
            ) {
                color
            } else {
                self.pixel(x, y)
            }
    }

    /// Whether a grid of `rows` horizontal and `columns` vertical lines
    /// passes through `(x, y)`. The lines divide the plot area and span it
    /// from edge to edge.
    pub open spec fn on_grid(self, rows: int, columns: int, x: int, y: int) -> bool {
        &&& self.in_plot(x, y)
        &&& (is_grid_position(self.margin as int, self.height - 2 * self.margin, rows, y)
            || is_grid_position(self.margin as int, self.width - 2 * self.margin, columns, x))
    }

    /// `after` is this raster with a grid of `rows` horizontal and
    /// `columns` vertical lines drawn over the plot area.
    pub open spec fn grid_drawn(self, after: Raster, rows: int, columns: int, color: [u8; 3]) -> bool {
        &&& self.same_frame(after)
        &&& forall|x: int, y: int|
            self.contains(x, y) ==> #[trigger] after.pixel(x, y) == if self.on_grid(
                rows,
                columns,
                x,
                y,
            ) {
                color
            } else {
                self.pixel(x, y)
            }
    }
}

/// A position inside a `w` by `h` frame has an index inside the buffer.
pub proof fn lemma_cell_in_range(w: int, h: int, x: int, y: int)
    requires
        0 <= x < w,
        0 <= y < h,
    ensures
        0 <= y * w,
        0 <= y * w + x < w * h,
{
    assert(y * w >= 0) by (nonlinear_arith)
        requires y >= 0, w >= 0;
    assert(y * w + w <= h * w) by (nonlinear_arith)
        requires y + 1 <= h, w >= 0;
    assert(h * w == w * h) by (nonlinear_arith);
}

/// Two positions of a frame of width `w` with the same index are the same.
pub proof fn lemma_cell_unique(w: int, x1: int, y1: int, x2: int, y2: int)
    requires
        0 <= x1 < w,
        0 <= x2 < w,
        y1 * w + x1 == y2 * w + x2,
    ensures
        x1 == x2,
        y1 == y2,
{
    if y1 < y2 {
        assert(y1 * w + w <= y2 * w) by (nonlinear_arith)
            requires y1 + 1 <= y2, w >= 0;
    } else if y2 < y1 {
        assert(y2 * w + w <= y1 * w) by (nonlinear_arith)
            requires y2 + 1 <= y1, w >= 0;
    }
}

} // verus!
