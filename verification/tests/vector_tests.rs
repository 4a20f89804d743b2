use figdraw::figure::canvas::svgcanvas::{write_shape, Shape, SvgCanvas};
use figdraw::figure::utilities::decimal::{append_decimal, append_signed_decimal};
use figdraw::figure::utilities::linetype::LineType;

const OPEN: &str = "<svg xmlns=\"http://www.w3.org/2000/svg\" width=\"300\" height=\"200\">";

#[test]
fn decimal_is_unpadded() {
    let mut s = String::new();
    append_decimal(&mut s, 0);
    s.push(' ');
    append_decimal(&mut s, 7);
    s.push(' ');
    append_decimal(&mut s, 10);
    s.push(' ');
    append_decimal(&mut s, 1234567890);
    s.push(' ');
    append_decimal(&mut s, u64::MAX);
    assert_eq!(s, "0 7 10 1234567890 18446744073709551615");
}

#[test]
fn signed_decimal_has_a_minus_sign() {
    let mut s = String::from("x");
    append_signed_decimal(&mut s, -45);
    s.push(' ');
    append_signed_decimal(&mut s, 0);
    s.push(' ');
    append_signed_decimal(&mut s, i64::MIN);
    s.push(' ');
    append_signed_decimal(&mut s, i64::MAX);
    assert_eq!(s, "x-45 0 -9223372036854775808 9223372036854775807");
}

#[test]
fn empty_canvas_serializes_to_an_empty_document() {
    let c = SvgCanvas::new(300, 200, 10);
    assert_eq!(c.width(), 300);
    assert_eq!(c.height(), 200);
    assert_eq!(c.margin(), 10);
    assert_eq!(c.len(), 0);
    assert_eq!(c.serialize(), format!("{}</svg>", OPEN));
}

#[test]
fn rect_markup() {
    let mut c = SvgCanvas::new(300, 200, 10);
    c.draw_rect(10, -20, 280, 180, "rgb(1,2,3)", "none", 0, 100);
    assert_eq!(
        c.serialize(),
        format!(
            "{}<rect x=\"10\" y=\"-20\" width=\"280\" height=\"180\" fill=\"rgb(1,2,3)\" stroke=\"none\" stroke-width=\"0\" opacity=\"1\"/></svg>",
            OPEN
        )
    );
}

#[test]
fn opacity_is_written_in_hundredths() {
    let mut s = String::new();
    for opacity in [0u8, 5, 50, 99, 100, 255] {
        write_shape(
            &mut s,
            &Shape::Rect {
                x: 0,
                y: 0,
                width: 1,
                height: 1,
                fill: String::from("a"),
                stroke: String::from("b"),
                stroke_width: 2,
                opacity,
            },
        );
    }
    let found: Vec<&str> = s.split("opacity=\"").skip(1).map(|p| p.split('"').next().unwrap()).collect();
    assert_eq!(found, vec!["0.00", "0.05", "0.50", "0.99", "1", "1"]);
}

#[test]
fn line_markup() {
    let mut c = SvgCanvas::new(300, 200, 10);
    c.draw_line(1, 2, 3, 4, "black", 2, LineType::Solid);
    c.draw_line(5, 6, 7, 8, "red", 1, LineType::Dashed);
    assert_eq!(
        c.serialize(),
        format!(
            "{}<line x1=\"1\" y1=\"2\" x2=\"3\" y2=\"4\" stroke=\"black\" stroke-width=\"2\" stroke-dasharray=\"none\"/><line x1=\"5\" y1=\"6\" x2=\"7\" y2=\"8\" stroke=\"red\" stroke-width=\"1\" stroke-dasharray=\"4,4\"/></svg>",
            OPEN
        )
    );
}

#[test]
fn text_markup() {
    let mut c = SvgCanvas::new(300, 200, 10);
    c.draw_text(150, 12, "Sales", "rgb(0,0,0)", 14);
    assert_eq!(
        c.serialize(),
        format!(
            "{}<text x=\"150\" y=\"12\" font-size=\"14\" fill=\"rgb(0,0,0)\">Sales</text></svg>",
            OPEN
        )
    );
}

#[test]
fn shapes_are_serialized_in_draw_order() {
    let mut c = SvgCanvas::new(300, 200, 10);
    c.draw_text(1, 1, "first", "black", 10);
    c.draw_rect(2, 2, 5, 5, "white", "none", 0, 100);
    c.draw_line(3, 3, 9, 9, "blue", 1, LineType::Solid);
    assert_eq!(c.len(), 3);
    let doc = c.serialize();
    let text = doc.find("<text").unwrap();
    let rect = doc.find("<rect").unwrap();
    let line = doc.find("<line").unwrap();
    assert!(text < rect);
    assert!(rect < line);
    assert_eq!(
        doc,
        format!(
            "{}<text x=\"1\" y=\"1\" font-size=\"10\" fill=\"black\">first</text><rect x=\"2\" y=\"2\" width=\"5\" height=\"5\" fill=\"white\" stroke=\"none\" stroke-width=\"0\" opacity=\"1\"/><line x1=\"3\" y1=\"3\" x2=\"9\" y2=\"9\" stroke=\"blue\" stroke-width=\"1\" stroke-dasharray=\"none\"/></svg>",
            OPEN
        )
    );
}

#[test]
fn draw_shape_appends_the_record_as_given() {
    let mut c = SvgCanvas::new(300, 200, 10);
    c.draw_shape(Shape::Text {
        x: -1,
        y: 0,
        content: String::from("t"),
        fill: String::from("f"),
        size: 0,
    });
    assert_eq!(c.len(), 1);
    assert_eq!(
        c.serialize(),
        format!("{}<text x=\"-1\" y=\"0\" font-size=\"0\" fill=\"f\">t</text></svg>", OPEN)
    );
}
