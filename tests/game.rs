use pong_kernel::game::{
    GameState, KeyEvent, Phase, Side, TickOutcome, BALL_SIZE, PADDLE_HEIGHT,
};
use pong_kernel::handlers::{key, tick};
use pong_kernel::screen::{FrameGeometry, PixelOrder, ScreenWriter};

fn board() -> GameState {
    GameState::new(640, 480)
}

fn screen() -> ScreenWriter {
    let info = FrameGeometry {
        width: 640,
        height: 480,
        stride: 640,
        bytes_per_pixel: 4,
        format: PixelOrder::Rgb,
    };
    ScreenWriter::new(vec![7u8; 640 * 480 * 4], info)
}

#[test]
fn new_game_is_canonical() {
    let g = board();
    assert_eq!((g.ball_x, g.ball_y), (320, 240));
    assert_eq!((g.vel_x, g.vel_y), (5, 3));
    assert_eq!((g.paddle_left, g.paddle_right), (100, 100));
    assert_eq!((g.left_score, g.right_score), (0, 0));
    assert_eq!(g.phase, Phase::Playing);
}

#[test]
fn ball_off_left_edge_scores_for_right() {
    let mut g = board();
    g.ball_x = 2;
    g.ball_y = 100;
    g.vel_x = -5;
    g.vel_y = 3;
    g.paddle_left = 300;
    let mut s = screen();
    tick(&mut g, &mut s);
    assert_eq!(g.right_score, 1);
    assert_eq!(g.left_score, 0);
    assert_eq!((g.ball_x, g.ball_y), (320, 240));
    assert_eq!((g.vel_x, g.vel_y), (5, 3));
    assert_eq!(g.phase, Phase::Playing);
}

#[test]
fn fast_ball_at_right_paddle_never_passes_it() {
    let mut g = board();
    g.ball_x = 615;
    g.ball_y = 120;
    g.vel_x = 20;
    g.vel_y = 3;
    g.paddle_right = 100;
    let out = g.advance();
    assert_eq!(out, TickOutcome::Moved);
    assert_eq!(g.vel_x, -20);
    assert_eq!(g.vel_y, 3);
    assert_eq!((g.left_score, g.right_score), (0, 0));
    assert_eq!(g.phase, Phase::Playing);
    assert_eq!(g.ball_x, 612);
    assert!(g.ball_x + (BALL_SIZE as i64) <= 620);
}

#[test]
fn fast_ball_through_tick_bounces_without_scoring() {
    let mut g = board();
    let mut s = screen();
    g.ball_x = 615;
    g.ball_y = 120;
    g.vel_x = 20;
    g.vel_y = 3;
    g.paddle_right = 100;
    tick(&mut g, &mut s);
    assert_eq!((g.vel_x, g.vel_y), (-20, 3));
    assert_eq!((g.left_score, g.right_score), (0, 0));
    assert_eq!(g.phase, Phase::Playing);
    assert_eq!((g.ball_x, g.ball_y), (612, 123));
}

#[test]
fn fast_ball_past_left_paddle_is_held_in_front() {
    let mut g = board();
    g.ball_x = 30;
    g.ball_y = 100;
    g.vel_x = -15;
    g.vel_y = 0;
    g.paddle_left = 80;
    assert_eq!(g.advance(), TickOutcome::Moved);
    assert_eq!(g.vel_x, 15);
    assert_eq!(g.ball_x, 20);
    assert_eq!(g.right_score, 0);
}

#[test]
fn edge_beats_paddle_band() {
    let mut g = board();
    g.ball_x = 2;
    g.ball_y = 100;
    g.vel_x = -5;
    g.vel_y = 3;
    g.paddle_left = 80;
    assert_eq!(g.advance(), TickOutcome::Scored(Side::Right));
    assert_eq!(g.right_score, 1);
    assert_eq!((g.ball_x, g.ball_y), (320, 240));
    assert_eq!((g.vel_x, g.vel_y), (5, 3));
    let mut h = board();
    h.ball_x = 630;
    h.ball_y = 120;
    h.vel_x = 20;
    h.paddle_right = 100;
    assert_eq!(h.advance(), TickOutcome::Scored(Side::Left));
    assert_eq!(h.left_score, 1);
}

#[test]
fn ball_near_right_edge_without_paddle_keeps_moving() {
    let mut g = board();
    g.ball_x = 620;
    g.ball_y = 300;
    g.vel_x = 15;
    g.paddle_right = 100;
    assert_eq!(g.advance(), TickOutcome::Moved);
    assert_eq!(g.ball_x, 635);
    assert_eq!(g.left_score, 0);
    assert_eq!(g.advance(), TickOutcome::Scored(Side::Left));
}

#[test]
fn ball_missing_paddle_band_still_scores() {
    let mut g = board();
    g.ball_x = 625;
    g.ball_y = 300;
    g.vel_x = 20;
    g.paddle_right = 100;
    assert_eq!(g.advance(), TickOutcome::Scored(Side::Left));
    assert_eq!(g.left_score, 1);
}



#[test]
fn projected_position_registers_paddle_bounce() {
    let mut g = board();
    g.ball_x = 595;
    g.ball_y = 120;
    g.vel_x = 20;
    g.vel_y = 3;
    g.paddle_right = 100;
    let out = g.advance();
    assert_eq!(out, TickOutcome::Moved);
    assert_eq!(g.vel_x, -20);
    assert_eq!(g.vel_y, 3);
    assert_eq!(g.ball_x, 612);
    assert!(g.ball_x < 620);
}

#[test]
fn left_paddle_bounce_keeps_speed() {
    let mut g = board();
    g.ball_x = 30;
    g.ball_y = 110;
    g.vel_x = -7;
    g.vel_y = 2;
    g.paddle_left = 100;
    g.advance();
    assert_eq!(g.vel_x, 7);
    assert_eq!(g.vel_y, 2);
    assert_eq!(g.ball_x, 23);
}

#[test]
fn wall_bounce_flips_only_vertical_speed() {
    let mut g = board();
    g.ball_x = 300;
    g.ball_y = 2;
    g.vel_x = 5;
    g.vel_y = -4;
    g.advance();
    assert_eq!(g.ball_y, 0);
    assert_eq!(g.vel_y, 4);
    assert_eq!(g.vel_x, 5);
    let mut h = board();
    h.ball_x = 300;
    h.ball_y = 470;
    h.vel_y = 6;
    h.advance();
    assert_eq!(h.ball_y, 480 - BALL_SIZE as i64);
    assert_eq!(h.vel_y, -6);
}

#[test]
fn third_point_ends_match_for_left() {
    let mut g = board();
    let mut s = screen();
    g.left_score = 2;
    g.ball_x = 636;
    g.vel_x = 5;
    tick(&mut g, &mut s);
    assert_eq!(g.left_score, 3);
    assert_eq!(g.phase, Phase::Finished(Side::Left));
    assert_eq!((g.vel_x, g.vel_y), (-5, -3));
    let frozen = g;
    tick(&mut g, &mut s);
    tick(&mut g, &mut s);
    assert_eq!(g, frozen);
    assert_eq!(s.cursor.y_pos, 240);
    assert!(s.cursor.x_pos > 0);
    key(&mut g, &mut s, KeyEvent::Unicode('w'));
    key(&mut g, &mut s, KeyEvent::ArrowDown);
    key(&mut g, &mut s, KeyEvent::Unicode('R'));
    assert_eq!(g, frozen);
    key(&mut g, &mut s, KeyEvent::Unicode('r'));
    assert_eq!(g.phase, Phase::Playing);
    assert_eq!((g.left_score, g.right_score), (0, 0));
    assert_eq!(g, GameState::new(640, 480));
}

#[test]
fn score_rises_by_one_per_point_and_not_before_three() {
    let mut g = board();
    for expected in 1..3u32 {
        g.ball_x = 1;
        g.vel_x = -5;
        let out = g.advance();
        assert_eq!(out, TickOutcome::Scored(Side::Right));
        assert_eq!(g.right_score, expected);
        assert_eq!(g.phase, Phase::Playing);
    }
    g.ball_x = 1;
    g.vel_x = -5;
    g.advance();
    assert_eq!(g.right_score, 3);
    assert_eq!(g.phase, Phase::Finished(Side::Right));
    assert_eq!(g.advance(), TickOutcome::Idle);
    assert_eq!(g.right_score, 3);
}

#[test]
fn ball_stays_on_board_over_many_ticks() {
    let mut g = board();
    g.vel_x = 13;
    g.vel_y = -11;
    for _ in 0..500 {
        if g.phase != Phase::Playing {
            g.reset();
        }
        g.advance();
        assert!(g.ball_x >= 0 && g.ball_x < 640);
        assert!(g.ball_y >= 0 && g.ball_y < 480);
    }
}

#[test]
fn paddles_stay_on_board() {
    let mut g = board();
    for _ in 0..40 {
        g.press(KeyEvent::Unicode('s'));
        g.press(KeyEvent::ArrowDown);
        assert!(g.paddle_left + PADDLE_HEIGHT <= 480);
        assert!(g.paddle_right + PADDLE_HEIGHT <= 480);
    }
    assert_eq!(g.paddle_left, 480 - PADDLE_HEIGHT);
    for _ in 0..40 {
        g.press(KeyEvent::Unicode('W'));
        g.press(KeyEvent::ArrowUp);
    }
    assert_eq!((g.paddle_left, g.paddle_right), (0, 0));
}

#[test]
fn paddle_moves_one_step_per_key() {
    let mut g = board();
    g.press(KeyEvent::Unicode('S'));
    assert_eq!(g.paddle_left, 125);
    g.press(KeyEvent::Unicode('w'));
    g.press(KeyEvent::Unicode('w'));
    assert_eq!(g.paddle_left, 75);
    g.press(KeyEvent::ArrowDown);
    assert_eq!(g.paddle_right, 125);
    g.press(KeyEvent::Unicode('x'));
    g.press(KeyEvent::ArrowLeft);
    g.press(KeyEvent::OtherRaw);
    assert_eq!((g.paddle_left, g.paddle_right), (75, 125));
}

#[test]
fn restart_is_ignored_while_playing() {
    let mut g = board();
    g.left_score = 2;
    g.press(KeyEvent::Unicode('r'));
    assert_eq!(g.left_score, 2);
}

#[test]
fn reset_gives_same_state_after_any_match() {
    let mut a = board();
    a.left_score = 3;
    a.right_score = 1;
    a.ball_x = 17;
    a.paddle_left = 0;
    a.phase = Phase::Finished(Side::Left);
    let mut b = board();
    b.right_score = 3;
    b.vel_x = -9;
    b.paddle_right = 420;
    b.phase = Phase::Finished(Side::Right);
    a.press(KeyEvent::Unicode('r'));
    b.press(KeyEvent::Unicode('r'));
    assert_eq!(a, b);
    assert_eq!(a, GameState::new(640, 480));
    a.press(KeyEvent::Unicode('r'));
    assert_eq!(a, b);
}

#[test]
fn short_board_moves_default_paddles_up() {
    let g = GameState::new(100, 120);
    assert_eq!((g.paddle_left, g.paddle_right), (60, 60));
}

fn px(s: &ScreenWriter, x: usize, y: usize) -> Vec<u8> {
    let off = (y * s.info.stride + x) * 4;
    s.framebuffer[off..off + 4].to_vec()
}

#[test]
fn tick_moves_the_drawn_ball() {
    let mut g = board();
    let mut s = screen();
    pong_kernel::handlers::start(&mut s, &g);
    g.ball_x = 200;
    g.ball_y = 150;
    tick(&mut g, &mut s);
    assert_eq!((g.ball_x, g.ball_y), (205, 153));
    assert_eq!(px(&s, 205, 153), vec![255, 255, 0, 0]);
    assert_eq!(px(&s, 212, 160), vec![255, 255, 0, 0]);
    assert_eq!(px(&s, 213, 160), vec![0, 0, 0, 0]);
    assert_eq!(px(&s, 318, 0), vec![255, 255, 255, 0]);
    tick(&mut g, &mut s);
    assert_eq!(px(&s, 205, 153), vec![0, 0, 0, 0]);
    assert_eq!(px(&s, 210, 156), vec![255, 255, 0, 0]);
}

#[test]
fn scoring_tick_redraws_that_digit() {
    let mut g = board();
    let mut s = screen();
    pong_kernel::handlers::start(&mut s, &g);
    assert_eq!(px(&s, 480, 20), vec![255, 255, 255, 0]);
    g.ball_x = 1;
    g.vel_x = -5;
    tick(&mut g, &mut s);
    assert_eq!(g.right_score, 1);
    assert_eq!(px(&s, 480, 20), vec![0, 0, 0, 0]);
    assert_eq!(px(&s, 495, 20), vec![255, 255, 255, 0]);
    assert_eq!(px(&s, 160, 20), vec![255, 255, 255, 0]);
}

#[test]
fn key_redraws_moved_paddle_and_restart_repaints() {
    let mut g = board();
    let mut s = screen();
    pong_kernel::handlers::start(&mut s, &g);
    key(&mut g, &mut s, KeyEvent::ArrowDown);
    assert_eq!(g.paddle_right, 125);
    assert_eq!(px(&s, 625, 100), vec![0, 0, 0, 0]);
    assert_eq!(px(&s, 625, 184), vec![255, 255, 255, 0]);
    g.phase = Phase::Finished(Side::Right);
    g.right_score = 3;
    key(&mut g, &mut s, KeyEvent::Unicode('r'));
    assert_eq!(g, GameState::new(640, 480));
    assert_eq!(px(&s, 625, 100), vec![255, 255, 255, 0]);
    assert_eq!(px(&s, 625, 184), vec![0, 0, 0, 0]);
    assert_eq!(px(&s, 0, 479), vec![0, 0, 0, 0]);
    assert_eq!((s.previous_paddle_left_pos, s.previous_paddle_right_pos), (100, 100));
}
