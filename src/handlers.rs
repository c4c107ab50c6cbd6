use crate::game::{
    on_key, scorer, step, PADDLE_INSET, GameState, KeyEvent, Phase, Side, TickOutcome, BALL_SIZE, PADDLE_HEIGHT,
    PADDLE_WIDTH,
};
use crate::screen::{
    color_bytes, covered, cursor_after_text, digit_strokes, in_rect, mid_line_dashes, paddle_pixel,
    pixel_of, text_pixel, hidden_as, text_clears, FrameGeometry, ScreenWriter, Writer, GLYPH_WIDTH,
};
use vstd::prelude::*;

verus! {

/// Top edge of the score digits.
pub const SCORE_Y: usize = 10;

/// Side of the box a score digit is drawn in.
pub const SCORE_SIZE: usize = 30;

pub open spec fn white(info: FrameGeometry) -> Seq<u8> {
    color_bytes(info.format, 255, 255, 255, info.bytes_per_pixel as int)
}

pub open spec fn black(info: FrameGeometry) -> Seq<u8> {
    color_bytes(info.format, 0, 0, 0, info.bytes_per_pixel as int)
}

pub open spec fn yellow(info: FrameGeometry) -> Seq<u8> {
    color_bytes(info.format, 255, 255, 0, info.bytes_per_pixel as int)
}

/// Left edge of a side's score digit.
pub open spec fn score_x(width: int, side: Side) -> int {
    match side {
        Side::Left => width / 4,
        Side::Right => 3 * width / 4,
    }
}

/// The game is played on this screen, which leaves room for both paddles.
pub open spec fn plays_on(game: GameState, screen: &ScreenWriter) -> bool {
    &&& game.wf()
    &&& screen.wf()
    &&& game.width == screen.info.width
    &&& game.height == screen.info.height
    &&& screen.info.width >= PADDLE_WIDTH + PADDLE_INSET
}

/// The scenery that a new match starts with holds pixel `(px, py)`: the
/// paddles, the centre line and a zero for each side.
pub open spec fn scenery_covers(info: FrameGeometry, left: int, right: int, px: int, py: int) -> bool {
    let pw = PADDLE_WIDTH as int;
    let ph = PADDLE_HEIGHT as int;
    ||| in_rect(PADDLE_INSET as int, left, pw, ph, px, py)
    ||| in_rect(info.width - PADDLE_WIDTH - PADDLE_INSET, right, pw, ph, px, py)
    ||| covered(mid_line_dashes(info), px, py)
    ||| covered(
        digit_strokes(0, score_x(info.width as int, Side::Left), SCORE_Y as int, SCORE_SIZE as int),
        px,
        py,
    )
    ||| covered(
        digit_strokes(0, score_x(info.width as int, Side::Right), SCORE_Y as int, SCORE_SIZE as int),
        px,
        py,
    )
}

/// What pixel `(px, py)`, which showed `base`, shows once a tick from `g0`
/// to `g1` has moved the ball and redrawn a score that changed.
pub open spec fn ball_layer(
    info: FrameGeometry,
    base: Seq<u8>,
    px: int,
    py: int,
    g0: GameState,
    g1: GameState,
) -> Seq<u8> {
    let b = BALL_SIZE as int;
    let sy = SCORE_Y as int;
    let ss = SCORE_SIZE as int;
    if in_rect(g1.ball_x as int, g1.ball_y as int, b, b, px, py) {
        yellow(info)
    } else if scorer(g0) is Some && covered(
        digit_strokes(
            crate::game::score_of(g1, scorer(g0)->0),
            score_x(info.width as int, scorer(g0)->0),
            sy,
            ss,
        ),
        px,
        py,
    ) {
        white(info)
    } else if scorer(g0) is Some && in_rect(
        score_x(info.width as int, scorer(g0)->0),
        sy,
        ss,
        ss,
        px,
        py,
    ) {
        black(info)
    } else if in_rect(g0.ball_x as int, g0.ball_y as int, b, b, px, py) {
        black(info)
    } else {
        base
    }
}

/// What pixel `(px, py)`, which showed `base`, shows after a tick of a
/// running match from `g0` to `g1`, with the paddles last drawn at
/// `prev_l` and `prev_r`.
pub open spec fn tick_pixel(
    info: FrameGeometry,
    base: Seq<u8>,
    px: int,
    py: int,
    g0: GameState,
    g1: GameState,
    prev_l: int,
    prev_r: int,
) -> Seq<u8> {
    if covered(mid_line_dashes(info), px, py) {
        white(info)
    } else {
        paddle_pixel(
            info,
            ball_layer(info, base, px, py, g0, g1),
            px,
            py,
            prev_l,
            g1.paddle_left as int,
            prev_r,
            g1.paddle_right as int,
        )
    }
}

/// The text shown when `side` has won.
pub open spec fn win_text(side: Side) -> Seq<char> {
    match side {
        Side::Left => "Left Player Wins! Press 'r' to restart"@,
        Side::Right => "Right Player Wins! Press 'r' to restart"@,
    }
}

/// Where a line of `n` characters starts when centred on the screen.
pub open spec fn centred(info: FrameGeometry, n: int) -> Writer {
    let half_text = n * GLYPH_WIDTH / 2;
    let half_screen = info.width / 2;
    Writer {
        x_pos: if half_text > half_screen {
            0
        } else {
            (half_screen - half_text) as usize
        },
        y_pos: info.height / 2,
    }
}

fn win_message(side: Side) -> (r: &'static str)
    ensures
        r@ == win_text(side),
        r@.len() <= 64,
{
    proof {
        reveal_strlit("Left Player Wins! Press 'r' to restart");
        reveal_strlit("Right Player Wins! Press 'r' to restart");
    }
    match side {
        Side::Left => "Left Player Wins! Press 'r' to restart",
        Side::Right => "Right Player Wins! Press 'r' to restart",
    }
}

/// Draws `score` as a white digit in the box of side `size` from `(x, y)`;
/// a score without a digit (above 3) draws nothing.
pub fn draw_score(screen: &mut ScreenWriter, score: u32, x: usize, y: usize, size: usize)
    requires
        old(screen).wf(),
        x + size <= usize::MAX,
        y + size <= usize::MAX,
    ensures
        final(screen).wf(),
        final(screen).same_state(old(screen)),
        final(screen).shape_painted(
            old(screen).fb(),
            digit_strokes(score as int, x as int, y as int, size as int),
            white(old(screen).info),
        ),
{
    match score {
        0 => screen.draw_zero(x, y, size),
        1 => screen.draw_one(x, y, size),
        2 => screen.draw_two(x, y, size),
        3 => screen.draw_three(x, y, size),
        _ => {
            assert(digit_strokes(score as int, x as int, y as int, size as int) =~= seq![]);
        },
    }
}

/// Paints the scenery of a new match: both paddles, the centre line and a
/// zero for each side.
pub fn start(screen: &mut ScreenWriter, game: &GameState)
    requires
        plays_on(*game, old(screen)),
    ensures
        final(screen).wf(),
        final(screen).info == old(screen).info,
        final(screen).cursor == old(screen).cursor,
        final(screen).fb().len() == old(screen).fb().len(),
        final(screen).previous_paddle_left_pos == game.paddle_left,
        final(screen).previous_paddle_right_pos == game.paddle_right,
        hidden_as(old(screen).info, old(screen).fb(), final(screen).fb(), false),
        forall|px: int, py: int|
            #![trigger pixel_of(final(screen).framebuffer@, old(screen).info, px, py)]
            old(screen).info.on_screen(px, py) ==> pixel_of(
                final(screen).framebuffer@,
                old(screen).info,
                px,
                py,
            ) == if scenery_covers(
                old(screen).info,
                game.paddle_left as int,
                game.paddle_right as int,
                px,
                py,
            ) {
                white(old(screen).info)
            } else {
                pixel_of(old(screen).fb(), old(screen).info, px, py)
            },
{
    let ghost info = screen.info;
    let ghost f0 = screen.framebuffer@;
    let w = screen.width();
    screen.draw_pong_pad(PADDLE_INSET, game.paddle_left, PADDLE_HEIGHT, PADDLE_WIDTH);
    let ghost f1 = screen.framebuffer@;
    screen.draw_pong_pad(w - PADDLE_WIDTH - PADDLE_INSET, game.paddle_right, PADDLE_HEIGHT, PADDLE_WIDTH);
    let ghost f2 = screen.framebuffer@;
    screen.previous_paddle_left_pos = game.paddle_left;
    screen.previous_paddle_right_pos = game.paddle_right;
    screen.draw_mid_line();
    let ghost f3 = screen.framebuffer@;
    draw_score(screen, 0, w / 4, SCORE_Y, SCORE_SIZE);
    let ghost f4 = screen.framebuffer@;
    draw_score(screen, 0, 3 * w / 4, SCORE_Y, SCORE_SIZE);
    assert forall|px: int, py: int| info.on_screen(px, py) implies pixel_of(
        screen.framebuffer@,
        info,
        px,
        py,
    ) == if scenery_covers(info, game.paddle_left as int, game.paddle_right as int, px, py) {
        white(info)
    } else {
        pixel_of(f0, info, px, py)
    } by {
        assert(pixel_of(f1, info, px, py) == pixel_of(f1, info, px, py));
        assert(pixel_of(f2, info, px, py) == pixel_of(f2, info, px, py));
        assert(pixel_of(f3, info, px, py) == pixel_of(f3, info, px, py));
        assert(pixel_of(f4, info, px, py) == pixel_of(f4, info, px, py));
    }
}


/// One timer tick. While the match runs, the ball is erased, moved and
/// drawn again, a changed score is redrawn, and the paddles and centre line
/// are refreshed; once it is over, the winner's message is written in the
/// middle of the screen and nothing moves.
pub fn tick(game: &mut GameState, screen: &mut ScreenWriter)
    requires
        plays_on(*old(game), old(screen)),
    ensures
        *final(game) == step(*old(game)),
        plays_on(*final(game), final(screen)),
        final(screen).info == old(screen).info,
        old(game).phase != Phase::Playing ==> {
            &&& final(screen).previous_paddle_left_pos == old(screen).previous_paddle_left_pos
            &&& final(screen).previous_paddle_right_pos == old(screen).previous_paddle_right_pos
            &&& final(screen).cursor == cursor_after_text(
                old(screen).info,
                centred(old(screen).info, win_text(old(game).phase->0).len() as int),
                win_text(old(game).phase->0),
            )
            &&& hidden_as(
                old(screen).info,
                old(screen).fb(),
                final(screen).fb(),
                text_clears(
                    old(screen).info,
                    centred(old(screen).info, win_text(old(game).phase->0).len() as int),
                    win_text(old(game).phase->0),
                ),
            )
            &&& forall|px: int, py: int|
                #![trigger pixel_of(final(screen).framebuffer@, old(screen).info, px, py)]
                old(screen).info.on_screen(px, py) ==> pixel_of(
                    final(screen).framebuffer@,
                    old(screen).info,
                    px,
                    py,
                ) == text_pixel(
                    old(screen).info,
                    centred(old(screen).info, win_text(old(game).phase->0).len() as int),
                    win_text(old(game).phase->0),
                    px,
                    py,
                    pixel_of(old(screen).fb(), old(screen).info, px, py),
                )
        },
        old(game).phase == Phase::Playing ==> {
            &&& final(screen).previous_paddle_left_pos == final(game).paddle_left
            &&& final(screen).previous_paddle_right_pos == final(game).paddle_right
            &&& final(screen).cursor == old(screen).cursor
            &&& hidden_as(old(screen).info, old(screen).fb(), final(screen).fb(), false)
            &&& forall|px: int, py: int|
                #![trigger pixel_of(final(screen).framebuffer@, old(screen).info, px, py)]
                old(screen).info.on_screen(px, py) ==> pixel_of(
                    final(screen).framebuffer@,
                    old(screen).info,
                    px,
                    py,
                ) == tick_pixel(
                    old(screen).info,
                    pixel_of(old(screen).fb(), old(screen).info, px, py),
                    px,
                    py,
                    *old(game),
                    *final(game),
                    old(screen).previous_paddle_left_pos as int,
                    old(screen).previous_paddle_right_pos as int,
                )
        },
{
    let ghost info = screen.info;
    let ghost g0 = *game;
    let ghost f0 = screen.framebuffer@;
    if game.phase != Phase::Playing {
        let side = match game.phase {
            Phase::Finished(side) => side,
            Phase::Playing => Side::Left,
        };
        let message = win_message(side);
        let n = message.unicode_len();
        let half_text = n * GLYPH_WIDTH / 2;
        let half_screen = screen.width() / 2;
        let start_x = if half_text > half_screen {
            0
        } else {
            half_screen - half_text
        };
        let start_y = screen.height() / 2;
        screen.set_position(start_x, start_y);
        screen.write_str(message);
        return ;
    }
    screen.clear_ball(game.ball_x as usize, game.ball_y as usize, BALL_SIZE);
    let ghost f1 = screen.framebuffer@;
    let outcome = game.advance();
    let w = screen.width();
    match outcome {
        TickOutcome::Scored(side) => {
            let x = match side {
                Side::Left => w / 4,
                Side::Right => 3 * w / 4,
            };
            let score = match side {
                Side::Left => game.left_score,
                Side::Right => game.right_score,
            };
            screen.clear_score(x, SCORE_Y, SCORE_SIZE);
            let ghost f2 = screen.framebuffer@;
            draw_score(screen, score, x, SCORE_Y, SCORE_SIZE);
            assert forall|px: int, py: int| info.on_screen(px, py) implies pixel_of(
                screen.framebuffer@,
                info,
                px,
                py,
            ) == if covered(
                digit_strokes(score as int, x as int, SCORE_Y as int, SCORE_SIZE as int),
                px,
                py,
            ) {
                white(info)
            } else if in_rect(x as int, SCORE_Y as int, SCORE_SIZE as int, SCORE_SIZE as int, px, py) {
                black(info)
            } else {
                pixel_of(f1, info, px, py)
            } by {
                assert(pixel_of(f2, info, px, py) == pixel_of(f2, info, px, py));
            }
        },
        _ => {},
    }
    let ghost f3 = screen.framebuffer@;
    screen.draw_ball(game.ball_x as usize, game.ball_y as usize, BALL_SIZE);
    let ghost f4 = screen.framebuffer@;
    screen.draw_pong_game(game.paddle_left, game.paddle_right);
    let ghost f5 = screen.framebuffer@;
    screen.draw_mid_line();
    assert forall|px: int, py: int| info.on_screen(px, py) implies pixel_of(
        screen.framebuffer@,
        info,
        px,
        py,
    ) == tick_pixel(
        info,
        pixel_of(f0, info, px, py),
        px,
        py,
        g0,
        *game,
        old(screen).previous_paddle_left_pos as int,
        old(screen).previous_paddle_right_pos as int,
    ) by {
        assert(pixel_of(f1, info, px, py) == pixel_of(f1, info, px, py));
        assert(pixel_of(f3, info, px, py) == pixel_of(f3, info, px, py));
        assert(pixel_of(f4, info, px, py) == pixel_of(f4, info, px, py));
        assert(pixel_of(f5, info, px, py) == pixel_of(f5, info, px, py));
    }
}

/// One key press. While the match runs, `w`/`W` and `s`/`S` move the left
/// paddle and the up and down arrows the right one, and the moved paddle is
/// redrawn; once it is over, only `r` acts: it starts a new match on a
/// cleared screen with fresh scenery.
pub fn key(game: &mut GameState, screen: &mut ScreenWriter, k: KeyEvent)
    requires
        plays_on(*old(game), old(screen)),
    ensures
        *final(game) == on_key(*old(game), k),
        plays_on(*final(game), final(screen)),
        final(screen).info == old(screen).info,
        final(screen).previous_paddle_left_pos == final(game).paddle_left || (old(game).phase
            != Phase::Playing && k != KeyEvent::Unicode('r')),
        old(game).phase != Phase::Playing && k != KeyEvent::Unicode('r') ==> *final(screen)
            == *old(screen),
        old(game).phase != Phase::Playing && k == KeyEvent::Unicode('r') ==> {
            &&& final(screen).cursor == (Writer { x_pos: 0, y_pos: 0 })
            &&& final(screen).previous_paddle_right_pos == final(game).paddle_right
            &&& hidden_as(old(screen).info, old(screen).fb(), final(screen).fb(), true)
            &&& forall|px: int, py: int|
                #![trigger pixel_of(final(screen).framebuffer@, old(screen).info, px, py)]
                old(screen).info.on_screen(px, py) ==> pixel_of(
                    final(screen).framebuffer@,
                    old(screen).info,
                    px,
                    py,
                ) == if scenery_covers(
                    old(screen).info,
                    final(game).paddle_left as int,
                    final(game).paddle_right as int,
                    px,
                    py,
                ) {
                    white(old(screen).info)
                } else {
                    black(old(screen).info)
                }
        },
        old(game).phase == Phase::Playing ==> {
            &&& final(screen).cursor == old(screen).cursor
            &&& final(screen).previous_paddle_right_pos == final(game).paddle_right
            &&& hidden_as(old(screen).info, old(screen).fb(), final(screen).fb(), false)
            &&& forall|px: int, py: int|
                #![trigger pixel_of(final(screen).framebuffer@, old(screen).info, px, py)]
                old(screen).info.on_screen(px, py) ==> pixel_of(
                    final(screen).framebuffer@,
                    old(screen).info,
                    px,
                    py,
                ) == paddle_pixel(
                    old(screen).info,
                    pixel_of(old(screen).fb(), old(screen).info, px, py),
                    px,
                    py,
                    old(screen).previous_paddle_left_pos as int,
                    final(game).paddle_left as int,
                    old(screen).previous_paddle_right_pos as int,
                    final(game).paddle_right as int,
                )
        },
{
    let ghost info = screen.info;
    if game.phase != Phase::Playing {
        if k == KeyEvent::Unicode('r') {
            game.press(k);
            screen.clear();
            let ghost f1 = screen.framebuffer@;
            start(screen, game);
            assert forall|px: int, py: int| info.on_screen(px, py) implies pixel_of(
                screen.framebuffer@,
                info,
                px,
                py,
            ) == if scenery_covers(
                info,
                game.paddle_left as int,
                game.paddle_right as int,
                px,
                py,
            ) {
                white(info)
            } else {
                black(info)
            } by {
                crate::screen::lemma_cleared_pixel(f1, info, px, py);
            }
        }
        return ;
    }
    game.press(k);
    screen.draw_pong_game(game.paddle_left, game.paddle_right);
}

} // verus!
