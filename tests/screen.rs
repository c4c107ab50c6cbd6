use pong_kernel::handlers::{draw_score, start};
use pong_kernel::game::GameState;
use pong_kernel::screen::{FrameGeometry, PixelOrder, Rect, ScreenWriter, Writer};

fn geometry(width: usize, height: usize, stride: usize, bpp: usize, format: PixelOrder) -> FrameGeometry {
    FrameGeometry { width, height, stride, bytes_per_pixel: bpp, format }
}

fn pixel(s: &ScreenWriter, x: usize, y: usize) -> Vec<u8> {
    let bpp = s.info.bytes_per_pixel;
    let off = (y * s.info.stride + x) * bpp;
    s.framebuffer[off..off + bpp].to_vec()
}

fn small(format: PixelOrder) -> ScreenWriter {
    ScreenWriter::new(vec![9u8; 40 * 30 * 4], geometry(40, 30, 40, 4, format))
}

#[test]
fn new_screen_is_black_with_cursor_home() {
    let s = small(PixelOrder::Rgb);
    assert!(s.framebuffer.iter().all(|b| *b == 0));
    assert_eq!(s.cursor, Writer { x_pos: 0, y_pos: 0 });
    assert_eq!((s.width(), s.height()), (40, 30));
}

#[test]
fn draw_pixel_follows_channel_order() {
    let mut s = small(PixelOrder::Rgb);
    s.draw_pixel(3, 2, 10, 20, 30);
    assert_eq!(pixel(&s, 3, 2), vec![10, 20, 30, 0]);
    assert_eq!(pixel(&s, 4, 2), vec![0, 0, 0, 0]);
    let mut t = small(PixelOrder::Bgr);
    t.draw_pixel(3, 2, 10, 20, 30);
    assert_eq!(pixel(&t, 3, 2), vec![30, 20, 10, 0]);
}

#[test]
fn draw_pixel_with_three_bytes_and_padding_stride() {
    let mut s = ScreenWriter::new(vec![0u8; 6 * 2 * 3], geometry(4, 2, 6, 3, PixelOrder::Rgb));
    s.draw_pixel(1, 1, 1, 2, 3);
    assert_eq!(&s.framebuffer[21..24], &[1, 2, 3]);
    assert_eq!(s.framebuffer.iter().filter(|b| **b != 0).count(), 3);
}

#[test]
fn pixels_off_screen_are_left_out() {
    let mut s = small(PixelOrder::Rgb);
    s.draw_pixel(40, 0, 1, 1, 1);
    s.draw_pixel(0, 30, 1, 1, 1);
    s.fill_rect(35, 25, 100, 100, 5, 5, 5);
    assert_eq!(pixel(&s, 39, 29), vec![5, 5, 5, 0]);
    assert_eq!(pixel(&s, 34, 29), vec![0, 0, 0, 0]);
    assert_eq!(s.framebuffer.iter().filter(|b| **b != 0).count(), 5 * 5 * 3);
}

#[test]
fn write_pixel_scales_intensity() {
    let mut s = small(PixelOrder::Rgb);
    s.write_pixel(0, 0, 200);
    assert_eq!(pixel(&s, 0, 0), vec![50, 200, 100, 0]);
    let mut t = small(PixelOrder::Bgr);
    t.write_pixel(0, 0, 200);
    assert_eq!(pixel(&t, 0, 0), vec![100, 200, 50, 0]);
}

#[test]
fn paddles_and_ball_fill_their_rectangles() {
    let mut s = small(PixelOrder::Rgb);
    s.draw_pong_pad(2, 3, 5, 4);
    assert_eq!(pixel(&s, 2, 3), vec![255, 255, 255, 0]);
    assert_eq!(pixel(&s, 5, 7), vec![255, 255, 255, 0]);
    assert_eq!(pixel(&s, 6, 7), vec![0, 0, 0, 0]);
    assert_eq!(pixel(&s, 5, 8), vec![0, 0, 0, 0]);
    s.clear_pong_pad(2, 3, 5, 4);
    assert!(s.framebuffer.iter().all(|b| *b == 0));
    s.draw_ball(10, 10, 3);
    assert_eq!(pixel(&s, 12, 12), vec![255, 255, 0, 0]);
    s.clear_ball(10, 10, 3);
    assert!(s.framebuffer.iter().all(|b| *b == 0));
}

#[test]
fn zero_is_a_hollow_box() {
    let mut s = small(PixelOrder::Rgb);
    s.draw_zero(0, 0, 10);
    assert_eq!(pixel(&s, 0, 0), vec![255, 255, 255, 0]);
    assert_eq!(pixel(&s, 9, 9), vec![255, 255, 255, 0]);
    assert_eq!(pixel(&s, 5, 5), vec![0, 0, 0, 0]);
    assert_eq!(pixel(&s, 10, 0), vec![0, 0, 0, 0]);
    let lit = s.framebuffer.chunks(4).filter(|p| p[0] == 255).count();
    assert_eq!(lit, 100 - 36);
}

#[test]
fn one_is_a_single_bar() {
    let mut s = small(PixelOrder::Rgb);
    s.draw_one(0, 0, 10);
    let lit = s.framebuffer.chunks(4).filter(|p| p[0] == 255).count();
    assert_eq!(lit, 2 * 10);
    assert_eq!(pixel(&s, 5, 0), vec![255, 255, 255, 0]);
    assert_eq!(pixel(&s, 6, 9), vec![255, 255, 255, 0]);
    assert_eq!(pixel(&s, 4, 0), vec![0, 0, 0, 0]);
}

#[test]
fn two_and_three_differ_in_lower_left() {
    let mut s = small(PixelOrder::Rgb);
    s.draw_two(0, 0, 10);
    let mut t = small(PixelOrder::Rgb);
    t.draw_three(0, 0, 10);
    assert_eq!(pixel(&s, 0, 7), vec![255, 255, 255, 0]);
    assert_eq!(pixel(&t, 0, 7), vec![0, 0, 0, 0]);
    assert_eq!(pixel(&s, 9, 7), vec![0, 0, 0, 0]);
    assert_eq!(pixel(&t, 9, 7), vec![255, 255, 255, 0]);
    assert_eq!(pixel(&s, 5, 4), vec![255, 255, 255, 0]);
    assert_eq!(pixel(&t, 5, 4), vec![255, 255, 255, 0]);
}

#[test]
fn score_above_three_draws_nothing() {
    let mut s = small(PixelOrder::Rgb);
    draw_score(&mut s, 4, 0, 0, 10);
    assert!(s.framebuffer.iter().all(|b| *b == 0));
    draw_score(&mut s, 1, 0, 0, 10);
    assert_eq!(pixel(&s, 5, 5), vec![255, 255, 255, 0]);
}

#[test]
fn clear_score_blanks_the_digit_box() {
    let mut s = small(PixelOrder::Rgb);
    s.draw_zero(0, 0, 10);
    s.clear_score(0, 0, 10);
    assert!(s.framebuffer.iter().all(|b| *b == 0));
}

#[test]
fn fill_rects_paints_each_rectangle() {
    let mut s = small(PixelOrder::Rgb);
    let rects = vec![Rect { x: 0, y: 0, w: 2, h: 1 }, Rect { x: 5, y: 5, w: 1, h: 2 }];
    s.fill_rects(&rects, 1, 1, 1);
    assert_eq!(s.framebuffer.chunks(4).filter(|p| p[0] == 1).count(), 4);
    assert_eq!(pixel(&s, 5, 6), vec![1, 1, 1, 0]);
}

#[test]
fn mid_line_has_twenty_dashes() {
    let mut s = ScreenWriter::new(vec![0u8; 45 * 400 * 4], geometry(45, 400, 45, 4, PixelOrder::Rgb));
    s.draw_mid_line();
    let lit = s.framebuffer.chunks(4).filter(|p| p[0] == 255).count();
    assert_eq!(lit, 20 * 5 * 10);
    assert_eq!(pixel(&s, 20, 0), vec![255, 255, 255, 0]);
    assert_eq!(pixel(&s, 24, 389), vec![255, 255, 255, 0]);
    assert_eq!(pixel(&s, 20, 10), vec![0, 0, 0, 0]);
    assert_eq!(pixel(&s, 19, 0), vec![0, 0, 0, 0]);
}

#[test]
fn paddle_redraw_touches_only_moved_paddle() {
    let mut s = ScreenWriter::new(vec![0u8; 100 * 200 * 4], geometry(100, 200, 100, 4, PixelOrder::Rgb));
    s.draw_pong_game(50, 0);
    assert_eq!(s.previous_paddle_left_pos, 50);
    assert_eq!(pixel(&s, 10, 50), vec![255, 255, 255, 0]);
    assert_eq!(pixel(&s, 80, 0), vec![0, 0, 0, 0]);
    s.draw_pixel(85, 5, 7, 7, 7);
    s.draw_pong_game(75, 0);
    assert_eq!(pixel(&s, 10, 50), vec![0, 0, 0, 0]);
    assert_eq!(pixel(&s, 10, 134), vec![255, 255, 255, 0]);
    assert_eq!(pixel(&s, 85, 5), vec![7, 7, 7, 0]);
    assert_eq!(s.framebuffer.chunks(4).filter(|p| p[0] == 255).count(), 600);
}

#[test]
fn start_paints_scenery() {
    let mut s = ScreenWriter::new(vec![0u8; 200 * 160 * 4], geometry(200, 160, 200, 4, PixelOrder::Rgb));
    let g = GameState::new(200, 160);
    start(&mut s, &g);
    assert_eq!(pixel(&s, 10, 100), vec![255, 255, 255, 0]);
    assert_eq!(pixel(&s, 180, 100), vec![255, 255, 255, 0]);
    assert_eq!(pixel(&s, 50, 10), vec![255, 255, 255, 0]);
    assert_eq!(pixel(&s, 150, 10), vec![255, 255, 255, 0]);
    assert_eq!(pixel(&s, 97, 0), vec![255, 255, 255, 0]);
    assert_eq!(pixel(&s, 50, 60), vec![0, 0, 0, 0]);
    assert_eq!((s.previous_paddle_left_pos, s.previous_paddle_right_pos), (100, 100));
}

#[test]
fn write_char_draws_a_glyph_and_advances() {
    let mut s = ScreenWriter::new(vec![0u8; 40 * 40 * 4], geometry(40, 40, 40, 4, PixelOrder::Rgb));
    s.write_char('A');
    assert_eq!(s.cursor, Writer { x_pos: 9, y_pos: 0 });
    assert!(s.framebuffer.iter().any(|b| *b != 0));
    let col9 = (0..40).all(|y| pixel(&s, 9, y) == vec![0, 0, 0, 0]);
    assert!(col9);
    let before = s.framebuffer.clone();
    s.write_char(' ');
    assert_eq!(s.cursor, Writer { x_pos: 18, y_pos: 0 });
    assert_eq!(s.framebuffer, before);
}

#[test]
fn line_breaks_move_the_cursor() {
    let mut s = small(PixelOrder::Rgb);
    s.set_position(7, 3);
    s.write_char('\r');
    assert_eq!(s.cursor, Writer { x_pos: 0, y_pos: 3 });
    s.set_position(7, 3);
    s.write_char('\n');
    assert_eq!(s.cursor, Writer { x_pos: 0, y_pos: 19 });
    assert!(s.framebuffer.iter().all(|b| *b == 0));
}

#[test]
fn glyph_wraps_at_right_edge_and_clears_at_bottom() {
    let mut s = ScreenWriter::new(vec![0u8; 20 * 40 * 4], geometry(20, 40, 20, 4, PixelOrder::Rgb));
    s.write_str("ab");
    assert_eq!(s.cursor, Writer { x_pos: 18, y_pos: 0 });
    s.write_char('c');
    assert_eq!(s.cursor, Writer { x_pos: 9, y_pos: 16 });
    s.write_str("de");
    assert_eq!(s.cursor, Writer { x_pos: 9, y_pos: 0 });
    let lit_right_half = (0..40).any(|y| (9..20).any(|x| pixel(&s, x, y) != vec![0, 0, 0, 0]));
    assert!(!lit_right_half);
}

#[test]
fn unknown_character_is_skipped() {
    let mut s = small(PixelOrder::Rgb);
    s.write_char('\u{10FFFF}');
    assert_eq!(s.cursor, Writer { x_pos: 0, y_pos: 0 });
    assert!(s.framebuffer.iter().all(|b| *b == 0));
}

#[test]
fn clear_blanks_everything() {
    let mut s = small(PixelOrder::Rgb);
    s.fill_rect(0, 0, 40, 30, 1, 2, 3);
    s.set_position(5, 5);
    s.clear();
    assert!(s.framebuffer.iter().all(|b| *b == 0));
    assert_eq!(s.cursor, Writer { x_pos: 0, y_pos: 0 });
}
