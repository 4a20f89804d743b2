use vstd::prelude::*;
use vstd::string::StringExecFns;
use crate::figure::utilities::decimal::{
    append_decimal,
    append_signed_decimal,
    decimal,
    signed_decimal,
};
use crate::figure::utilities::linetype::LineType;

verus! {

/// The mathematical picture of a shape record.
pub enum ShapeModel {
    Rect {
        x: int,
        y: int,
        width: int,
        height: int,
        fill: Seq<char>,
        stroke: Seq<char>,
        stroke_width: nat,
        opacity: nat,
    },
    Line { x1: int, y1: int, x2: int, y2: int, stroke: Seq<char>, stroke_width: nat, style: LineType },
    Text { x: int, y: int, content: Seq<char>, fill: Seq<char>, size: nat },
}

/// `acc` followed by an opacity given in hundredths, written as a decimal
/// fraction: `1` for a hundred or more, else `0.` and two digits.
pub open spec fn opacity_written_after(acc: Seq<char>, hundredths: nat) -> Seq<char> {
    if hundredths >= 100 {
        acc + "1"@
    } else if hundredths < 10 {
        acc + "0.0"@ + decimal(hundredths)
    } else {
        acc + "0."@ + decimal(hundredths)
    }
}

/// `acc` followed by the dash pattern of a line style.
pub open spec fn dashes_written_after(acc: Seq<char>, style: LineType) -> Seq<char> {
    match style {
        LineType::Solid => acc + "none"@,
        LineType::Dashed => acc + "4,4"@,
    }
}

impl ShapeModel {
    /// `acc` followed by this shape's element of the markup document.
    pub open spec fn written_after(self, acc: Seq<char>) -> Seq<char> {
        match self {
            ShapeModel::Rect { x, y, width, height, fill, stroke, stroke_width, opacity } => {
                opacity_written_after(
                    acc + "<rect x=\""@ + signed_decimal(x) + "\" y=\""@ + signed_decimal(y)
                        + "\" width=\""@ + signed_decimal(width) + "\" height=\""@
                        + signed_decimal(height) + "\" fill=\""@ + fill + "\" stroke=\""@ + stroke
                        + "\" stroke-width=\""@ + decimal(stroke_width) + "\" opacity=\""@,
                    opacity,
                ) + "\"/>"@
            },
            ShapeModel::Line { x1, y1, x2, y2, stroke, stroke_width, style } => {
                dashes_written_after(
                    acc + "<line x1=\""@ + signed_decimal(x1) + "\" y1=\""@ + signed_decimal(y1)
                        + "\" x2=\""@ + signed_decimal(x2) + "\" y2=\""@ + signed_decimal(y2)
                        + "\" stroke=\""@ + stroke + "\" stroke-width=\""@ + decimal(stroke_width)
                        + "\" stroke-dasharray=\""@,
                    style,
                ) + "\"/>"@
            },
            ShapeModel::Text { x, y, content, fill, size } => {
                acc + "<text x=\""@ + signed_decimal(x) + "\" y=\""@ + signed_decimal(y)
                    + "\" font-size=\""@ + decimal(size) + "\" fill=\""@ + fill + "\">"@ + content
                    + "</text>"@
            },
        }
    }
}

/// `acc` followed by the elements of the given shapes, first to last.
pub open spec fn all_written_after(acc: Seq<char>, shapes: Seq<ShapeModel>) -> Seq<char>
    decreases shapes.len(),
{
    if shapes.len() == 0 {
        acc
    } else {
        shapes.last().written_after(all_written_after(acc, shapes.drop_last()))
    }
}

/// The mathematical picture of a vector canvas: its frame and the shapes
/// drawn on it so far, in the order they were drawn.
pub struct Drawing {
    pub width: nat,
    pub height: nat,
    pub margin: nat,
    pub shapes: Seq<ShapeModel>,
}

impl Drawing {
    /// The opening tag of the markup document.
    pub open spec fn opening(self) -> Seq<char> {
        "<svg xmlns=\"http://www.w3.org/2000/svg\" width=\""@ + decimal(self.width)
            + "\" height=\""@ + decimal(self.height) + "\">"@
    }

    /// The markup document: the opening tag, the element of each shape in
    /// the order the shapes were drawn, and the closing tag.
    pub open spec fn document(self) -> Seq<char> {
        all_written_after(self.opening(), self.shapes) + "</svg>"@
    }

    /// `after` is this drawing with one more shape, on top of the others.
    pub open spec fn shape_added(self, after: Drawing, shape: ShapeModel) -> bool {
        &&& after.width == self.width
        &&& after.height == self.height
        &&& after.margin == self.margin
        &&& after.shapes == self.shapes.push(shape)
    }

    /// `after` has this drawing's frame and shapes and any number of
    /// further shapes on top of them.
    pub open spec fn extended_by(self, after: Drawing) -> bool {
        &&& after.width == self.width
        &&& after.height == self.height
        &&& after.margin == self.margin
        &&& self.shapes.len() <= after.shapes.len()
        &&& after.shapes.take(self.shapes.len() as int) == self.shapes
    }
}

/// A shape drawn later is written later: the document of a drawing with
/// one more shape is the earlier elements, unchanged and in their order,
/// followed by the element of the new shape.
pub proof fn lemma_written_in_draw_order(acc: Seq<char>, shapes: Seq<ShapeModel>, shape: ShapeModel)
    ensures
        all_written_after(acc, shapes.push(shape)) == shape.written_after(
            all_written_after(acc, shapes),
        ),
{
    assert(shapes.push(shape).drop_last() =~= shapes);
}

/// A shape record of a vector canvas.
#[derive(Clone, Debug)]
pub enum Shape {
    /// A rectangle. Its opacity is given in hundredths.
    Rect {
        x: i64,
        y: i64,
        width: i64,
        height: i64,
        fill: String,
        stroke: String,
        stroke_width: u32,
        opacity: u8,
    },
    /// A straight line.
    Line { x1: i64, y1: i64, x2: i64, y2: i64, stroke: String, stroke_width: u32, style: LineType },
    /// A piece of text.
    Text { x: i64, y: i64, content: String, fill: String, size: u32 },
}

impl View for Shape {
    type V = ShapeModel;

    open spec fn view(&self) -> ShapeModel {
        match self {
            Shape::Rect { x, y, width, height, fill, stroke, stroke_width, opacity } => {
                ShapeModel::Rect {
                    x: *x as int,
                    y: *y as int,
                    width: *width as int,
                    height: *height as int,
                    fill: fill@,
                    stroke: stroke@,
                    stroke_width: *stroke_width as nat,
                    opacity: *opacity as nat,
                }
            },
            Shape::Line { x1, y1, x2, y2, stroke, stroke_width, style } => ShapeModel::Line {
                x1: *x1 as int,
                y1: *y1 as int,
                x2: *x2 as int,
                y2: *y2 as int,
                stroke: stroke@,
                stroke_width: *stroke_width as nat,
                style: *style,
            },
            Shape::Text { x, y, content, fill, size } => ShapeModel::Text {
                x: *x as int,
                y: *y as int,
                content: content@,
                fill: fill@,
                size: *size as nat,
            },
        }
    }
}

fn write_opacity(out: &mut String, hundredths: u8)
    ensures
        final(out)@ == opacity_written_after(old(out)@, hundredths as nat),
{
    if hundredths >= 100 {
        out.append("1");
    } else if hundredths < 10 {
        out.append("0.0");
        append_decimal(out, hundredths as u64);
    } else {
        out.append("0.");
        append_decimal(out, hundredths as u64);
    }
}

fn write_dashes(out: &mut String, style: LineType)
    ensures
        final(out)@ == dashes_written_after(old(out)@, style),
{
    match style {
        LineType::Solid => out.append("none"),
        LineType::Dashed => out.append("4,4"),
    }
}

/// Writes the markup element of a shape at the end of `out`.
pub fn write_shape(out: &mut String, shape: &Shape)
    ensures
        final(out)@ == shape@.written_after(old(out)@),
{
    match shape {
        Shape::Rect { x, y, width, height, fill, stroke, stroke_width, opacity } => {
            out.append("<rect x=\"");
            append_signed_decimal(out, *x);
            out.append("\" y=\"");
            append_signed_decimal(out, *y);
            out.append("\" width=\"");
            append_signed_decimal(out, *width);
            out.append("\" height=\"");
            append_signed_decimal(out, *height);
            out.append("\" fill=\"");
            out.append(fill.as_str());
            out.append("\" stroke=\"");
            out.append(stroke.as_str());
            out.append("\" stroke-width=\"");
            append_decimal(out, *stroke_width as u64);
            out.append("\" opacity=\"");
            write_opacity(out, *opacity);
            out.append("\"/>");
        },
        Shape::Line { x1, y1, x2, y2, stroke, stroke_width, style } => {
            out.append("<line x1=\"");
            append_signed_decimal(out, *x1);
            out.append("\" y1=\"");
            append_signed_decimal(out, *y1);
            out.append("\" x2=\"");
            append_signed_decimal(out, *x2);
            out.append("\" y2=\"");
            append_signed_decimal(out, *y2);
            out.append("\" stroke=\"");
            out.append(stroke.as_str());
            out.append("\" stroke-width=\"");
            append_decimal(out, *stroke_width as u64);
            out.append("\" stroke-dasharray=\"");
            write_dashes(out, *style);
            out.append("\"/>");
        },
        Shape::Text { x, y, content, fill, size } => {
            out.append("<text x=\"");
            append_signed_decimal(out, *x);
            out.append("\" y=\"");
            append_signed_decimal(out, *y);
            out.append("\" font-size=\"");
            append_decimal(out, *size as u64);
            out.append("\" fill=\"");
            out.append(fill.as_str());
            out.append("\">");
            out.append(content.as_str());
            out.append("</text>");
        },
    }
}

/// A vector canvas: a frame and the shapes drawn so far, oldest first.
pub struct SvgCanvas {
    width: u32,
    height: u32,
    margin: u32,
    elements: Vec<Shape>,
}

impl View for SvgCanvas {
    type V = Drawing;

    closed spec fn view(&self) -> Drawing {
        Drawing {
            width: self.width as nat,
            height: self.height as nat,
            margin: self.margin as nat,
            shapes: self.elements@.map_values(|s: Shape| s@),
        }
    }
}

impl SvgCanvas {
    /// A canvas with no shape on it.
    pub fn new(width: u32, height: u32, margin: u32) -> (r: SvgCanvas)
        ensures
            r@ == (Drawing {
                width: width as nat,
                height: height as nat,
                margin: margin as nat,
                shapes: Seq::empty(),
            }),
    {
        let r = SvgCanvas { width, height, margin, elements: Vec::new() };
        assert(r@.shapes =~= Seq::empty());
        r
    }

    /// The canvas's width.
    pub fn width(&self) -> (r: u32)
        ensures
            r == self@.width,
    {
        self.width
    }

    /// The canvas's height.
    pub fn height(&self) -> (r: u32)
        ensures
            r == self@.height,
    {
        self.height
    }

    /// The width of the border around the plot area.
    pub fn margin(&self) -> (r: u32)
        ensures
            r == self@.margin,
    {
        self.margin
    }

    /// The number of shapes drawn so far.
    pub fn len(&self) -> (r: usize)
        ensures
            r == self@.shapes.len(),
    {
        self.elements.len()
    }

    /// Puts a shape on top of those drawn so far.
    pub fn draw_shape(&mut self, shape: Shape)
        ensures
            old(self)@.shape_added(final(self)@, shape@),
    {
        self.elements.push(shape);
        assert(self@.shapes =~= old(self)@.shapes.push(shape@));
    }

    /// Draws a rectangle, taken as given. Its opacity is in hundredths.
    pub fn draw_rect(
        &mut self,
        x: i64,
        y: i64,
        width: i64,
        height: i64,
        fill_color: &str,
        stroke_color: &str,
        stroke_width: u32,
        opacity: u8,
    )
        ensures
            old(self)@.shape_added(
                final(self)@,
                (ShapeModel::Rect {
                    x: x as int,
                    y: y as int,
                    width: width as int,
                    height: height as int,
                    fill: fill_color@,
                    stroke: stroke_color@,
                    stroke_width: stroke_width as nat,
                    opacity: opacity as nat,
                }),
            ),
    {
        self.draw_shape(
            Shape::Rect {
                x,
                y,
                width,
                height,
                fill: String::from_str(fill_color),
                stroke: String::from_str(stroke_color),
                stroke_width,
                opacity,
            },
        );
    }

    /// Draws a straight line, taken as given.
    pub fn draw_line(
        &mut self,
        x1: i64,
        y1: i64,
        x2: i64,
        y2: i64,
        stroke_color: &str,
        stroke_width: u32,
        style: LineType,
    )
        ensures
            old(self)@.shape_added(
                final(self)@,
                (ShapeModel::Line {
                    x1: x1 as int,
                    y1: y1 as int,
                    x2: x2 as int,
                    y2: y2 as int,
                    stroke: stroke_color@,
                    stroke_width: stroke_width as nat,
                    style: style,
                }),
            ),
    {
        self.draw_shape(
            Shape::Line { x1, y1, x2, y2, stroke: String::from_str(stroke_color), stroke_width, style },
        );
    }

    /// Draws a piece of text, taken as given.
    pub fn draw_text(&mut self, x: i64, y: i64, text: &str, fill_color: &str, size: u32)
        ensures
            old(self)@.shape_added(
                final(self)@,
                (ShapeModel::Text {
                    x: x as int,
                    y: y as int,
                    content: text@,
                    fill: fill_color@,
                    size: size as nat,
                }),
            ),
    {
        self.draw_shape(
            Shape::Text {
                x,
                y,
                content: String::from_str(text),
                fill: String::from_str(fill_color),
                size,
            },
        );
    }

    /// The markup document of the canvas, with the shapes in the order they
    /// were drawn.
    pub fn serialize(&self) -> (r: String)
        ensures
            r@ == self@.document(),
    {
        let mut out = String::from_str("<svg xmlns=\"http://www.w3.org/2000/svg\" width=\"");
        append_decimal(&mut out, self.width as u64);
        out.append("\" height=\"");
        append_decimal(&mut out, self.height as u64);
        out.append("\">");
        let n: usize = self.elements.len();
        let mut i: usize = 0;
        while i < n
            invariant
                i <= n,
                n == self.elements@.len(),
                n == self@.shapes.len(),
                out@ == all_written_after(self@.opening(), self@.shapes.take(i as int)),
            decreases n - i,
        {
            proof {
                let next = self@.shapes.take(i as int + 1);
                assert(next.drop_last() =~= self@.shapes.take(i as int));
                assert(next.last() == self.elements@[i as int]@);
            }
            write_shape(&mut out, &self.elements[i]);
            i += 1;
        }
        assert(self@.shapes.take(n as int) =~= self@.shapes);
        out.append("</svg>");
        out
    }
}

} // verus!
