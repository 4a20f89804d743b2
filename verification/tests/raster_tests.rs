use figdraw::figure::canvas::pixelcanvas::{mix, mix_channel, offset_after, PixelCanvas};
use figdraw::figure::utilities::linetype::LineType;
use figdraw::figure::utilities::textmask::TextMask;

const BLACK: [u8; 3] = [0, 0, 0];
const RED: [u8; 3] = [255, 0, 0];
const BLUE: [u8; 3] = [0, 0, 255];

fn count_of(canvas: &PixelCanvas, color: [u8; 3]) -> usize {
    let mut n = 0;
    for y in 0..canvas.height() {
        for x in 0..canvas.width() {
            if canvas.get_pixel(x, y) == Some(color) {
                n += 1;
            }
        }
    }
    n
}

#[test]
fn new_canvas_is_black_and_keeps_its_frame() {
    let c = PixelCanvas::new(7, 5, 2).unwrap();
    assert_eq!(c.width(), 7);
    assert_eq!(c.height(), 5);
    assert_eq!(c.margin(), 2);
    assert_eq!(count_of(&c, BLACK), 35);
}

#[test]
fn new_canvas_needs_a_plot_area() {
    assert!(PixelCanvas::new(10, 10, 5).is_none());
    assert!(PixelCanvas::new(10, 4, 2).is_none());
    assert!(PixelCanvas::new(0, 0, 0).is_none());
    assert!(PixelCanvas::new(11, 11, 5).is_some());
    assert!(PixelCanvas::new(1, 1, 0).is_some());
}

#[test]
fn get_pixel_outside_is_none() {
    let c = PixelCanvas::new(4, 3, 0).unwrap();
    assert_eq!(c.get_pixel(3, 2), Some(BLACK));
    assert_eq!(c.get_pixel(4, 2), None);
    assert_eq!(c.get_pixel(3, 3), None);
}

#[test]
fn draw_pixel_writes_one_position() {
    let mut c = PixelCanvas::new(4, 3, 0).unwrap();
    c.draw_pixel(1, 2, RED);
    assert_eq!(c.get_pixel(1, 2), Some(RED));
    assert_eq!(c.get_pixel(2, 1), Some(BLACK));
    assert_eq!(count_of(&c, RED), 1);
}

#[test]
fn draw_pixel_outside_is_skipped() {
    let mut c = PixelCanvas::new(4, 3, 0).unwrap();
    c.draw_pixel(4, 0, RED);
    c.draw_pixel(0, 3, RED);
    c.draw_pixel(u32::MAX, u32::MAX, RED);
    assert_eq!(count_of(&c, RED), 0);
}

#[test]
fn horizontal_line_covers_both_ends() {
    let mut c = PixelCanvas::new(10, 10, 0).unwrap();
    c.draw_line(2, 3, 6, 3, RED, LineType::Solid);
    for x in 2..=6 {
        assert_eq!(c.get_pixel(x, 3), Some(RED));
    }
    assert_eq!(c.get_pixel(1, 3), Some(BLACK));
    assert_eq!(c.get_pixel(7, 3), Some(BLACK));
    assert_eq!(count_of(&c, RED), 5);
}

#[test]
fn line_drawn_backwards_is_the_same() {
    let mut a = PixelCanvas::new(12, 12, 0).unwrap();
    let mut b = PixelCanvas::new(12, 12, 0).unwrap();
    a.draw_line(1, 2, 10, 6, RED, LineType::Solid);
    b.draw_line(10, 6, 1, 2, RED, LineType::Solid);
    for y in 0..12 {
        for x in 0..12 {
            assert_eq!(a.get_pixel(x, y), b.get_pixel(x, y));
        }
    }
}

#[test]
fn diagonal_line_steps_both_ways() {
    let mut c = PixelCanvas::new(6, 6, 0).unwrap();
    c.draw_line(0, 0, 5, 5, BLUE, LineType::Solid);
    for i in 0..6 {
        assert_eq!(c.get_pixel(i, i), Some(BLUE));
    }
    assert_eq!(count_of(&c, BLUE), 6);
}

#[test]
fn shallow_line_rounds_to_nearest_row() {
    let mut c = PixelCanvas::new(8, 8, 0).unwrap();
    c.draw_line(0, 0, 4, 2, RED, LineType::Solid);
    assert_eq!(c.get_pixel(0, 0), Some(RED));
    assert_eq!(c.get_pixel(1, 1), Some(RED));
    assert_eq!(c.get_pixel(2, 1), Some(RED));
    assert_eq!(c.get_pixel(3, 2), Some(RED));
    assert_eq!(c.get_pixel(4, 2), Some(RED));
    assert_eq!(count_of(&c, RED), 5);
}

#[test]
fn steep_line_has_one_pixel_per_row() {
    let mut c = PixelCanvas::new(8, 8, 0).unwrap();
    c.draw_line(5, 7, 3, 0, RED, LineType::Solid);
    assert_eq!(c.get_pixel(5, 7), Some(RED));
    assert_eq!(c.get_pixel(3, 0), Some(RED));
    assert_eq!(count_of(&c, RED), 8);
}

#[test]
fn line_of_one_point() {
    let mut c = PixelCanvas::new(4, 4, 0).unwrap();
    c.draw_line(2, 2, 2, 2, RED, LineType::Solid);
    assert_eq!(c.get_pixel(2, 2), Some(RED));
    assert_eq!(count_of(&c, RED), 1);
}

#[test]
fn line_is_clipped_to_the_canvas() {
    let mut c = PixelCanvas::new(4, 4, 0).unwrap();
    c.draw_line(-3, 1, 8, 1, RED, LineType::Solid);
    for x in 0..4 {
        assert_eq!(c.get_pixel(x, 1), Some(RED));
    }
    assert_eq!(count_of(&c, RED), 4);
    c.draw_line(-5, -5, -1, -1, BLUE, LineType::Solid);
    assert_eq!(count_of(&c, BLUE), 0);
}

#[test]
fn dashed_line_draws_runs_of_four() {
    let mut c = PixelCanvas::new(16, 2, 0).unwrap();
    c.draw_line(0, 0, 15, 0, RED, LineType::Dashed);
    for x in 0u32..16 {
        let expected = if (x / 4) % 2 == 0 { RED } else { BLACK };
        assert_eq!(c.get_pixel(x, 0), Some(expected));
    }
}

#[test]
fn offset_after_rounds_half_away_from_zero() {
    assert_eq!(offset_after(0, 3, 6), 0);
    assert_eq!(offset_after(1, 3, 6), 1);
    assert_eq!(offset_after(1, -3, 6), -1);
    assert_eq!(offset_after(2, 3, 6), 1);
    assert_eq!(offset_after(6, 3, 6), 3);
    assert_eq!(offset_after(6, -3, 6), -3);
    assert_eq!(offset_after(1, 1, 3), 0);
    assert_eq!(offset_after(2, 1, 3), 1);
    assert_eq!(offset_after(0, 0, 0), 0);
    assert_eq!(offset_after(4294967295, -4294967295, 4294967295), -4294967295);
}

#[test]
fn grid_lines_are_one_step_apart() {
    let mut c = PixelCanvas::new(200, 200, 20).unwrap();
    c.draw_grid(&[3, 1], RED);
    for y in [60u32, 100, 140] {
        assert_eq!(c.get_pixel(20, y), Some(RED));
        assert_eq!(c.get_pixel(50, y), Some(RED));
        assert_eq!(c.get_pixel(179, y), Some(RED));
        assert_eq!(c.get_pixel(19, y), Some(BLACK));
        assert_eq!(c.get_pixel(180, y), Some(BLACK));
    }
    assert_eq!(c.get_pixel(100, 20), Some(RED));
    assert_eq!(c.get_pixel(100, 179), Some(RED));
    assert_eq!(c.get_pixel(100, 19), Some(BLACK));
    assert_eq!(c.get_pixel(100, 180), Some(BLACK));
    assert_eq!(c.get_pixel(50, 61), Some(BLACK));
    assert_eq!(c.get_pixel(50, 20), Some(BLACK));
    assert_eq!(count_of(&c, RED), 3 * 160 + 160 - 3);
}

#[test]
fn grid_remainder_widens_the_last_interval() {
    let mut c = PixelCanvas::new(14, 3, 1).unwrap();
    c.draw_grid(&[0, 3], RED);
    assert_eq!(c.get_pixel(4, 1), Some(RED));
    assert_eq!(c.get_pixel(7, 1), Some(RED));
    assert_eq!(c.get_pixel(10, 1), Some(RED));
    assert_eq!(count_of(&c, RED), 3);
}

#[test]
fn grid_without_lines_draws_nothing() {
    let mut c = PixelCanvas::new(20, 20, 2).unwrap();
    c.draw_grid(&[0, 0], RED);
    assert_eq!(count_of(&c, RED), 0);
}

#[test]
fn grid_with_more_lines_than_rows_stays_on_the_first_row() {
    let mut c = PixelCanvas::new(10, 10, 2).unwrap();
    c.draw_grid(&[6, 0], RED);
    for x in 2..8 {
        assert_eq!(c.get_pixel(x, 2), Some(RED));
    }
    assert_eq!(count_of(&c, RED), 6);
}

#[test]
fn mix_channel_values() {
    assert_eq!(mix_channel(10, 200, 0), 10);
    assert_eq!(mix_channel(10, 200, 255), 200);
    assert_eq!(mix_channel(0, 255, 128), 128);
    assert_eq!(mix_channel(255, 0, 128), 127);
    assert_eq!(mix_channel(100, 200, 51), 120);
    assert_eq!(mix([0, 255, 100], [255, 0, 200], 51), [51, 204, 120]);
}

#[test]
fn text_mask_needs_one_value_per_cell() {
    assert!(TextMask::new(2, 3, vec![0; 6]).is_some());
    assert!(TextMask::new(2, 3, vec![0; 5]).is_none());
    assert!(TextMask::new(2, 3, vec![0; 7]).is_none());
    assert!(TextMask::new(0, 3, vec![]).is_some());
    let m = TextMask::new(2, 3, vec![1, 2, 3, 4, 5, 6]).unwrap();
    assert_eq!(m.width(), 2);
    assert_eq!(m.height(), 3);
    assert_eq!(m.coverage_at(1, 0), Some(2));
    assert_eq!(m.coverage_at(0, 2), Some(5));
    assert_eq!(m.coverage_at(2, 0), None);
    assert_eq!(m.coverage_at(0, 3), None);
}

#[test]
fn text_is_mixed_by_coverage() {
    let mut c = PixelCanvas::new(5, 5, 0).unwrap();
    let m = TextMask::new(2, 2, vec![255, 128, 0, 51]).unwrap();
    c.draw_text(1, 2, &m, [255, 255, 255]);
    assert_eq!(c.get_pixel(1, 2), Some([255, 255, 255]));
    assert_eq!(c.get_pixel(2, 2), Some([128, 128, 128]));
    assert_eq!(c.get_pixel(1, 3), Some(BLACK));
    assert_eq!(c.get_pixel(2, 3), Some([51, 51, 51]));
    assert_eq!(count_of(&c, BLACK), 22);
}

#[test]
fn text_beyond_the_edge_is_cut() {
    let mut c = PixelCanvas::new(3, 3, 0).unwrap();
    let m = TextMask::new(2, 2, vec![255; 4]).unwrap();
    c.draw_text(2, 2, &m, RED);
    assert_eq!(c.get_pixel(2, 2), Some(RED));
    assert_eq!(count_of(&c, RED), 1);
    c.draw_text(u32::MAX, u32::MAX, &m, BLUE);
    assert_eq!(count_of(&c, BLUE), 0);
}
