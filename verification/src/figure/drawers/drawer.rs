use vstd::prelude::*;
use vstd::string::StringExecFns;
use crate::figure::canvas::pixelcanvas::PixelCanvas;
use crate::figure::canvas::svgcanvas::{ShapeModel, SvgCanvas};
use crate::figure::configuration::figureconfig::FigureConfig;
use crate::figure::drawers::layout::{
    axis_value_anchor,
    axis_value_anchor_spec,
    centered_anchor,
    centered_anchor_spec,
};
use crate::figure::utilities::axistype::AxisType;
use crate::figure::utilities::decimal::{append_decimal, decimal};
use crate::figure::utilities::drawerror::DrawError;
use crate::figure::utilities::font::font_path;
use crate::figure::utilities::linetype::LineType;
use crate::figure::utilities::textmask::TextMask;

verus! {

/// A colour as markup writes it: `rgb(`, the three components in decimal
/// digits without padding, separated by commas, and `)`.
pub open spec fn rgb_text(color: [u8; 3]) -> Seq<char> {
    "rgb("@ + decimal(color[0] as nat) + ","@ + decimal(color[1] as nat) + ","@ + decimal(
        color[2] as nat,
    ) + ")"@
}

/// The rectangle that fills a drawing's plot area with one colour: inside
/// the margin on all four sides, without an outline, fully opaque.
pub open spec fn background_rect(width: nat, height: nat, margin: nat, color: [u8; 3]) -> ShapeModel {
    ShapeModel::Rect {
        x: margin as int,
        y: margin as int,
        width: width - 2 * margin,
        height: height - 2 * margin,
        fill: rgb_text(color),
        stroke: "none"@,
        stroke_width: 0,
        opacity: 100,
    }
}

/// What every chart type offers: its own content on either canvas, and the
/// decorations that all charts share, which are drawn here once.
pub trait Drawer {
    /// The configuration the chart draws by.
    fn get_figure_config(&self) -> &FigureConfig;

    /// Draws the chart's content on a raster canvas.
    fn draw(&mut self, canvas: &mut PixelCanvas)
        requires
            old(canvas).wf(),
        ensures
            final(canvas).wf(),
            old(canvas)@.same_frame(final(canvas)@),
    ;

    /// Draws the chart's legend on a raster canvas.
    fn draw_legend(&self, canvas: &mut PixelCanvas)
        requires
            old(canvas).wf(),
        ensures
            final(canvas).wf(),
            old(canvas)@.same_frame(final(canvas)@),
    ;

    /// Draws the chart's content on a vector canvas, on top of what is
    /// there.
    fn draw_svg(&mut self, svg_canvas: &mut SvgCanvas)
        ensures
            old(svg_canvas)@.extended_by(final(svg_canvas)@),
    ;

    /// A colour in the form that markup takes.
    fn rgb_to_svg_color(&self, color: [u8; 3]) -> (r: String)
        ensures
            r@ == rgb_text(color),
    {
        let mut out = String::from_str("rgb(");
        append_decimal(&mut out, color[0] as u64);
        out.append(",");
        append_decimal(&mut out, color[1] as u64);
        out.append(",");
        append_decimal(&mut out, color[2] as u64);
        out.append(")");
        out
    }

    /// Draws one rectangle in the background colour over the plot area of
    /// a vector canvas.
    fn fill_svg_background(&self, svg_canvas: &mut SvgCanvas, config: &FigureConfig)
        ensures
            old(svg_canvas)@.shape_added(
                final(svg_canvas)@,
                background_rect(
                    old(svg_canvas)@.width,
                    old(svg_canvas)@.height,
                    old(svg_canvas)@.margin,
                    config.color_background,
                ),
            ),
    {
        let margin: i64 = svg_canvas.margin() as i64;
        let width: i64 = svg_canvas.width() as i64;
        let height: i64 = svg_canvas.height() as i64;
        let bg_color = self.rgb_to_svg_color(config.color_background);
        svg_canvas.draw_rect(
            margin,
            margin,
            width - 2 * margin,
            height - 2 * margin,
            bg_color.as_str(),
            "none",
            0,
            100,
        );
    }

    /// Draws the configured number of grid lines over the plot area, in
    /// the grid colour.
    fn draw_grid(&self, canvas: &mut PixelCanvas, config: &FigureConfig)
        requires
            old(canvas).wf(),
        ensures
            final(canvas).wf(),
            old(canvas)@.grid_drawn(
                final(canvas)@,
                config.num_grid_horizontal as int,
                config.num_grid_vertical as int,
                config.color_grid,
            ),
    {
        canvas.draw_grid(&[config.num_grid_horizontal, config.num_grid_vertical], config.color_grid);
    }

    /// Draws an axis: a solid line between two points, in the axis colour.
    fn draw_axis(
        &self,
        canvas: &mut PixelCanvas,
        config: &FigureConfig,
        x1: i32,
        y1: i32,
        x2: i32,
        y2: i32,
    )
        requires
            old(canvas).wf(),
        ensures
            final(canvas).wf(),
            old(canvas)@.line_drawn(
                final(canvas)@,
                x1 as int,
                y1 as int,
                x2 as int,
                y2 as int,
                config.color_axis,
                LineType::Solid,
            ),
    {
        canvas.draw_line(x1, y1, x2, y2, config.color_axis, LineType::Solid);
    }

    /// Fills the plot area with the background colour and leaves the margin
    /// as it was.
    fn fill_background(&self, canvas: &mut PixelCanvas, config: &FigureConfig)
        requires
            old(canvas).wf(),
        ensures
            final(canvas).wf(),
            old(canvas)@.plot_filled(final(canvas)@, config.color_background),
    {
        let ghost before = canvas@;
        let margin: u32 = canvas.margin();
        let right: u32 = canvas.width() - margin;
        let bottom: u32 = canvas.height() - margin;
        let mut y: u32 = margin;
        while y < bottom
            invariant
                margin <= y <= bottom,
                margin == before.margin,
                right == before.width - before.margin,
                bottom == before.height - before.margin,
                canvas.wf(),
                before.same_frame(canvas@),
                forall|px: int, py: int|
                    before.contains(px, py) ==> #[trigger] canvas@.pixel(px, py) == if before.in_plot(
                        px,
                        py,
                    ) && py < y {
                        config.color_background
                    } else {
                        before.pixel(px, py)
                    },
            decreases bottom - y,
        {
            let mut x: u32 = margin;
            while x < right
                invariant
                    margin <= x <= right,
                    margin <= y < bottom,
                    margin == before.margin,
                    right == before.width - before.margin,
                    bottom == before.height - before.margin,
                    canvas.wf(),
                    before.same_frame(canvas@),
                    forall|px: int, py: int|
                        before.contains(px, py) ==> #[trigger] canvas@.pixel(px, py) == if before.in_plot(
                            px,
                            py,
                        ) && (py < y || (py == y && px < x)) {
                            config.color_background
                        } else {
                            before.pixel(px, py)
                        },
                decreases right - x,
            {
                canvas.draw_pixel(x, y, config.color_background);
                x += 1;
            }
            y += 1;
        }
    }

    /// Draws a label in the axis colour, its box centred on `(x, y)`.
    /// Without a label font in the configuration nothing is drawn.
    fn draw_label(
        &self,
        canvas: &mut PixelCanvas,
        config: &FigureConfig,
        x: u32,
        y: u32,
        text: &TextMask,
    ) -> (r: Result<(), DrawError>)
        requires
            old(canvas).wf(),
            text.wf(),
        ensures
            final(canvas).wf(),
            config.font_label is None ==> r == Err::<(), DrawError>(DrawError::FontPathMissing)
                && final(canvas)@ == old(canvas)@,
            config.font_label is Some ==> r is Ok && ({
                let a = centered_anchor_spec(x, y, text@.width as u32, text@.height as u32);
                old(canvas)@.text_drawn(final(canvas)@, a.0, a.1, text@, config.color_axis)
            }),
    {
        if let Err(missing) = font_path(&config.font_label) {
            return Err(missing);
        }
        let (ax, ay) = centered_anchor(x, y, text.width(), text.height());
        canvas.draw_text(ax, ay, text, config.color_axis);
        Ok(())
    }

    /// Draws the title in the title colour, its box centred on `(x, y)`.
    /// Without a title font in the configuration nothing is drawn.
    fn draw_title(
        &self,
        canvas: &mut PixelCanvas,
        config: &FigureConfig,
        x: u32,
        y: u32,
        text: &TextMask,
    ) -> (r: Result<(), DrawError>)
        requires
            old(canvas).wf(),
            text.wf(),
        ensures
            final(canvas).wf(),
            config.font_title is None ==> r == Err::<(), DrawError>(DrawError::FontPathMissing)
                && final(canvas)@ == old(canvas)@,
            config.font_title is Some ==> r is Ok && ({
                let a = centered_anchor_spec(x, y, text@.width as u32, text@.height as u32);
                old(canvas)@.text_drawn(final(canvas)@, a.0, a.1, text@, config.color_title)
            }),
    {
        if let Err(missing) = font_path(&config.font_title) {
            return Err(missing);
        }
        let (ax, ay) = centered_anchor(x, y, text.width(), text.height());
        canvas.draw_text(ax, ay, text, config.color_title);
        Ok(())
    }

    /// Draws a tick value in the axis colour, placed by its axis: below the
    /// tick and centred on it on the horizontal axis, left of the tick and
    /// centred on it on the vertical one. Without a label font in the
    /// configuration nothing is drawn.
    fn draw_axis_value(
        &self,
        canvas: &mut PixelCanvas,
        config: &FigureConfig,
        x: u32,
        y: u32,
        text: &TextMask,
        axis: AxisType,
    ) -> (r: Result<(), DrawError>)
        requires
            old(canvas).wf(),
            text.wf(),
        ensures
            final(canvas).wf(),
            config.font_label is None ==> r == Err::<(), DrawError>(DrawError::FontPathMissing)
                && final(canvas)@ == old(canvas)@,
            config.font_label is Some ==> r is Ok && ({
                let a = axis_value_anchor_spec(
                    x,
                    y,
                    text@.width as u32,
                    text@.height as u32,
                    axis,
                );
                old(canvas)@.text_drawn(final(canvas)@, a.0, a.1, text@, config.color_axis)
            }),
    {
        if let Err(missing) = font_path(&config.font_label) {
            return Err(missing);
        }
        let (ax, ay) = axis_value_anchor(x, y, text.width(), text.height(), axis);
        canvas.draw_text(ax, ay, text, config.color_axis);
        Ok(())
    }
}

} // verus!
