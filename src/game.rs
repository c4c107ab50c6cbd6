use vstd::math::abs;
use vstd::prelude::*;

verus! {

/// Width of a paddle, in pixels.
pub const PADDLE_WIDTH: usize = 10;

/// Height of a paddle, in pixels.
pub const PADDLE_HEIGHT: usize = 60;

/// Side length of the square ball, in pixels.
pub const BALL_SIZE: usize = 8;

/// Horizontal speed of a freshly served ball.
pub const SERVE_SPEED_X: i64 = 5;

/// Vertical speed of a freshly served ball.
pub const SERVE_SPEED_Y: i64 = 3;

/// How far one key press moves a paddle.
pub const PADDLE_STEP: usize = 25;

/// The score that ends a match.
pub const WIN_SCORE: u32 = 3;

/// Where the paddles start, measured from the top edge.
pub const DEFAULT_PADDLE_Y: usize = 100;

/// Extra horizontal look-ahead used when testing the ball against a paddle.
pub const COLLISION_MARGIN: i64 = 15;

/// Horizontal distance from each side of the board to its paddle.
pub const PADDLE_INSET: usize = 10;

/// Narrowest board: room for both paddles with a ball between them.
pub const MIN_WIDTH: usize = 2 * (PADDLE_INSET + PADDLE_WIDTH) + BALL_SIZE;

/// Largest board dimension, and largest speed, that the game accepts.
pub const MAX_DIM: usize = 1000000;

/// One of the two players.
#[derive(Clone, Copy, Debug, PartialEq, Eq, Structural)]
pub enum Side {
    Left,
    Right,
}

/// Whether a match is running or over.
#[derive(Clone, Copy, Debug, PartialEq, Eq, Structural)]
pub enum Phase {
    Playing,
    Finished(Side),
}

/// A key event as delivered by the keyboard decoder.
#[derive(Clone, Copy, Debug, PartialEq, Eq, Structural)]
pub enum KeyEvent {
    Unicode(char),
    ArrowUp,
    ArrowDown,
    ArrowLeft,
    ArrowRight,
    OtherRaw,
}

/// What a timer tick did, so that the caller knows what to repaint.
#[derive(Clone, Copy, Debug, PartialEq, Eq, Structural)]
pub enum TickOutcome {
    /// The match is over; nothing moved.
    Idle,
    /// The ball moved within the board.
    Moved,
    /// The ball left the board and the given side scored.
    Scored(Side),
}

/// The whole state of the game, for a board of `width` by `height` pixels.
#[derive(Clone, Copy, Debug, PartialEq, Eq, Structural)]
pub struct GameState {
    pub width: usize,
    pub height: usize,
    pub ball_x: i64,
    pub ball_y: i64,
    pub vel_x: i64,
    pub vel_y: i64,
    pub paddle_left: usize,
    pub paddle_right: usize,
    pub left_score: u32,
    pub right_score: u32,
    pub phase: Phase,
}

/// The board sizes the game is defined for: room for the paddles and a ball.
pub open spec fn board_ok(width: int, height: int) -> bool {
    &&& MIN_WIDTH <= width <= MAX_DIM
    &&& PADDLE_HEIGHT <= height <= MAX_DIM
}

/// The paddles' starting offset, moved up where the board is too short for it.
pub open spec fn default_paddle_spec(height: int) -> int {
    if height >= DEFAULT_PADDLE_Y + PADDLE_HEIGHT {
        DEFAULT_PADDLE_Y as int
    } else {
        height - PADDLE_HEIGHT
    }
}

/// The state every match starts from.
pub open spec fn canonical(width: usize, height: usize) -> GameState {
    GameState {
        width,
        height,
        ball_x: (width / 2) as i64,
        ball_y: (height / 2) as i64,
        vel_x: SERVE_SPEED_X,
        vel_y: SERVE_SPEED_Y,
        paddle_left: default_paddle_spec(height as int) as usize,
        paddle_right: default_paddle_spec(height as int) as usize,
        left_score: 0,
        right_score: 0,
        phase: Phase::Playing,
    }
}

/// The score of one side.
pub open spec fn score_of(s: GameState, side: Side) -> int {
    match side {
        Side::Left => s.left_score as int,
        Side::Right => s.right_score as int,
    }
}

impl GameState {
    /// The invariant of every reachable state.
    pub open spec fn wf(self) -> bool {
        &&& board_ok(self.width as int, self.height as int)
        &&& 0 <= self.ball_x < self.width
        &&& 0 <= self.ball_y < self.height
        &&& -(MAX_DIM as int) <= self.vel_x <= MAX_DIM
        &&& -(MAX_DIM as int) <= self.vel_y <= MAX_DIM
        &&& self.paddle_left + PADDLE_HEIGHT <= self.height
        &&& self.paddle_right + PADDLE_HEIGHT <= self.height
        &&& self.left_score <= WIN_SCORE
        &&& self.right_score <= WIN_SCORE
        &&& match self.phase {
            Phase::Playing => self.left_score < WIN_SCORE && self.right_score < WIN_SCORE,
            Phase::Finished(Side::Left) => self.left_score == WIN_SCORE && self.right_score < WIN_SCORE,
            Phase::Finished(Side::Right) => self.right_score == WIN_SCORE && self.left_score < WIN_SCORE,
        }
    }
}

/// Left edge of the right paddle.
pub open spec fn right_face(width: int) -> int {
    width - PADDLE_INSET - PADDLE_WIDTH
}

/// Right edge of the left paddle.
pub open spec fn left_face() -> int {
    (PADDLE_INSET + PADDLE_WIDTH) as int
}

/// The ball's projected position is in the right paddle's band while moving right.
pub open spec fn hits_right_paddle(s: GameState, nx: int, ny: int) -> bool {
    &&& s.vel_x > 0
    &&& nx + BALL_SIZE + COLLISION_MARGIN >= s.width - PADDLE_WIDTH
    &&& ny + BALL_SIZE > s.paddle_right
    &&& ny < s.paddle_right + PADDLE_HEIGHT
}

/// The ball's projected position is in the left paddle's band while moving left.
pub open spec fn hits_left_paddle(s: GameState, nx: int, ny: int) -> bool {
    &&& s.vel_x < 0
    &&& nx <= PADDLE_WIDTH + COLLISION_MARGIN
    &&& ny + BALL_SIZE > s.paddle_left
    &&& ny < s.paddle_left + PADDLE_HEIGHT
}

/// The state after `side` scores: the ball is served again from the centre.
pub open spec fn after_score(s: GameState, side: Side) -> GameState {
    let left = if side == Side::Left { s.left_score + 1 } else { s.left_score as int };
    let right = if side == Side::Right { s.right_score + 1 } else { s.right_score as int };
    let won = if side == Side::Left { left >= WIN_SCORE } else { right >= WIN_SCORE };
    GameState {
        ball_x: (s.width / 2) as i64,
        ball_y: (s.height / 2) as i64,
        vel_x: if side == Side::Right { SERVE_SPEED_X } else { (-SERVE_SPEED_X) as i64 },
        vel_y: if side == Side::Right { SERVE_SPEED_Y } else { (-SERVE_SPEED_Y) as i64 },
        left_score: left as u32,
        right_score: right as u32,
        phase: if won { Phase::Finished(side) } else { Phase::Playing },
        ..s
    }
}

/// Which side, if any, scores on this tick: the ball's projected position
/// is off the left edge, or at or past the right edge. The edges are tested
/// before the paddles.
pub open spec fn scorer(s: GameState) -> Option<Side> {
    let nx = s.ball_x + s.vel_x;
    if nx < 0 {
        Some(Side::Right)
    } else if nx >= s.width {
        Some(Side::Left)
    } else {
        None
    }
}

/// The ball hits the top or the bottom edge on this tick.
pub open spec fn hits_wall(s: GameState) -> bool {
    let ny = s.ball_y + s.vel_y;
    ny < 0 || ny + BALL_SIZE > s.height
}

/// The ball hits a paddle on this tick.
pub open spec fn hits_paddle(s: GameState) -> bool {
    let nx = s.ball_x + s.vel_x;
    let ny = s.ball_y + s.vel_y;
    hits_right_paddle(s, nx, ny) || hits_left_paddle(s, nx, ny)
}

/// One timer tick of the simulation. A ball projected off an edge scores;
/// otherwise the paddles are tested against the projected position, so a
/// fast ball cannot pass through one: it bounces back and is held in front
/// of the paddle.
pub open spec fn step(s: GameState) -> GameState {
    if s.phase != Phase::Playing {
        s
    } else if scorer(s) is Some {
        after_score(s, scorer(s)->0)
    } else {
        let nx = s.ball_x + s.vel_x;
        let ny = s.ball_y + s.vel_y;
        let by = if ny < 0 {
            0
        } else if ny + BALL_SIZE > s.height {
            s.height - BALL_SIZE
        } else {
            ny
        };
        let bx = if hits_right_paddle(s, nx, ny) {
            if nx <= right_face(s.width as int) - BALL_SIZE {
                nx
            } else {
                right_face(s.width as int) - BALL_SIZE
            }
        } else if hits_left_paddle(s, nx, ny) {
            if nx >= left_face() {
                nx
            } else {
                left_face()
            }
        } else {
            nx
        };
        GameState {
            ball_x: bx as i64,
            ball_y: by as i64,
            vel_x: (if hits_paddle(s) { -s.vel_x } else { s.vel_x as int }) as i64,
            vel_y: (if hits_wall(s) { -s.vel_y } else { s.vel_y as int }) as i64,
            ..s
        }
    }
}

/// A paddle position after one step up.
pub open spec fn paddle_up(y: usize) -> usize {
    if y >= PADDLE_STEP { (y - PADDLE_STEP) as usize } else { 0 }
}

/// A paddle position after one step down, kept on the board.
pub open spec fn paddle_down(y: usize, height: usize) -> usize {
    if y + PADDLE_STEP + PADDLE_HEIGHT <= height {
        (y + PADDLE_STEP) as usize
    } else {
        (height - PADDLE_HEIGHT) as usize
    }
}

/// The state after a key press.
pub open spec fn on_key(s: GameState, k: KeyEvent) -> GameState {
    if s.phase != Phase::Playing {
        if k == KeyEvent::Unicode('r') {
            canonical(s.width, s.height)
        } else {
            s
        }
    } else {
        match k {
            KeyEvent::Unicode(c) => if c == 'w' || c == 'W' {
                GameState { paddle_left: paddle_up(s.paddle_left), ..s }
            } else if c == 's' || c == 'S' {
                GameState { paddle_left: paddle_down(s.paddle_left, s.height), ..s }
            } else {
                s
            },
            KeyEvent::ArrowUp => GameState { paddle_right: paddle_up(s.paddle_right), ..s },
            KeyEvent::ArrowDown => GameState {
                paddle_right: paddle_down(s.paddle_right, s.height),
                ..s
            },
            _ => s,
        }
    }
}

/// After any tick of a running match the ball lies on the board.
pub proof fn lemma_ball_stays_on_board(s: GameState)
    requires
        s.wf(),
        s.phase == Phase::Playing,
    ensures
        0 <= step(s).ball_x < s.width,
        0 <= step(s).ball_y < s.height,
        step(s).wf(),
{
}

/// A tick adds exactly one point to the side that scored and none to the
/// other, and the match ends on exactly the tick where a score first reaches
/// the winning score, won by the side that just scored.
pub proof fn lemma_scoring(s: GameState, side: Side)
    requires
        s.wf(),
    ensures
        score_of(step(s), side) == score_of(s, side) + if s.phase == Phase::Playing && scorer(s)
            == Some(side) {
            1int
        } else {
            0int
        },
        s.phase == Phase::Playing ==> (step(s).phase != Phase::Playing <==> (score_of(step(s), Side::Left)
            == WIN_SCORE || score_of(step(s), Side::Right) == WIN_SCORE)),
        s.phase == Phase::Playing && step(s).phase == Phase::Finished(side) ==> scorer(s) == Some(
            side,
        ),
        s.phase != Phase::Playing ==> step(s) == s,
{
}

/// No key press moves a paddle off the board.
pub proof fn lemma_paddles_stay_on_board(s: GameState, k: KeyEvent)
    requires
        s.wf(),
    ensures
        0 <= on_key(s, k).paddle_left,
        on_key(s, k).paddle_left + PADDLE_HEIGHT <= s.height,
        0 <= on_key(s, k).paddle_right,
        on_key(s, k).paddle_right + PADDLE_HEIGHT <= s.height,
        on_key(s, k).wf(),
{
}

/// Bounces only flip the sign of one velocity component: a paddle hit flips
/// the horizontal one, a wall hit the vertical one, and speeds are kept.
pub proof fn lemma_elastic_bounce(s: GameState)
    requires
        s.wf(),
        s.phase == Phase::Playing,
        scorer(s) is None,
    ensures
        step(s).vel_x == if hits_paddle(s) { -s.vel_x } else { s.vel_x as int },
        step(s).vel_y == if hits_wall(s) { -s.vel_y } else { s.vel_y as int },
        abs(step(s).vel_x as int) == abs(s.vel_x as int),
        abs(step(s).vel_y as int) == abs(s.vel_y as int),
{
}

/// A ball that stays on the board and whose projected position meets a
/// paddle's band bounces: nobody scores, the horizontal speed flips, and the
/// ball stays in front of that paddle.
pub proof fn lemma_paddle_blocks_ball(s: GameState)
    requires
        s.wf(),
        s.phase == Phase::Playing,
        scorer(s) is None,
        hits_paddle(s),
    ensures
        step(s).left_score == s.left_score,
        step(s).right_score == s.right_score,
        step(s).phase == Phase::Playing,
        step(s).vel_x == -s.vel_x,
        hits_right_paddle(s, s.ball_x + s.vel_x, s.ball_y + s.vel_y) ==> step(s).ball_x
            + BALL_SIZE <= right_face(s.width as int),
        hits_left_paddle(s, s.ball_x + s.vel_x, s.ball_y + s.vel_y) ==> step(s).ball_x
            >= left_face(),
{
}

/// Restarting a finished match gives the same canonical state whatever came
/// before, and restarting again changes nothing.
pub proof fn lemma_reset_is_canonical(a: GameState, b: GameState)
    requires
        a.wf(),
        b.wf(),
        a.phase != Phase::Playing,
        b.phase != Phase::Playing,
        a.width == b.width,
        a.height == b.height,
    ensures
        on_key(a, KeyEvent::Unicode('r')) == canonical(a.width, a.height),
        on_key(a, KeyEvent::Unicode('r')) == on_key(b, KeyEvent::Unicode('r')),
        on_key(on_key(a, KeyEvent::Unicode('r')), KeyEvent::Unicode('r')) == on_key(
            a,
            KeyEvent::Unicode('r'),
        ),
{
}

fn default_paddle(height: usize) -> (r: usize)
    requires
        PADDLE_HEIGHT <= height,
    ensures
        r == default_paddle_spec(height as int),
{
    if height >= DEFAULT_PADDLE_Y + PADDLE_HEIGHT {
        DEFAULT_PADDLE_Y
    } else {
        height - PADDLE_HEIGHT
    }
}

impl GameState {
    /// A fresh match on a board of the given size.
    pub fn new(width: usize, height: usize) -> (r: GameState)
        requires
            board_ok(width as int, height as int),
        ensures
            r == canonical(width, height),
            r.wf(),
    {
        let p = default_paddle(height);
        GameState {
            width,
            height,
            ball_x: (width / 2) as i64,
            ball_y: (height / 2) as i64,
            vel_x: SERVE_SPEED_X,
            vel_y: SERVE_SPEED_Y,
            paddle_left: p,
            paddle_right: p,
            left_score: 0,
            right_score: 0,
            phase: Phase::Playing,
        }
    }

    /// Puts every field back to the start of a match.
    pub fn reset(&mut self)
        requires
            board_ok(old(self).width as int, old(self).height as int),
        ensures
            *final(self) == canonical(old(self).width, old(self).height),
            final(self).wf(),
    {
        *self = GameState::new(self.width, self.height);
    }

    /// Serves the ball again after `side` scored, and ends the match on a win.
    fn score(&mut self, side: Side)
        requires
            old(self).wf(),
            old(self).phase == Phase::Playing,
        ensures
            *final(self) == after_score(*old(self), side),
    {
        match side {
            Side::Left => self.left_score = self.left_score + 1,
            Side::Right => self.right_score = self.right_score + 1,
        }
        self.ball_x = (self.width / 2) as i64;
        self.ball_y = (self.height / 2) as i64;
        match side {
            Side::Right => {
                self.vel_x = SERVE_SPEED_X;
                self.vel_y = SERVE_SPEED_Y;
            },
            Side::Left => {
                self.vel_x = -SERVE_SPEED_X;
                self.vel_y = -SERVE_SPEED_Y;
            },
        }
        let won = match side {
            Side::Left => self.left_score >= WIN_SCORE,
            Side::Right => self.right_score >= WIN_SCORE,
        };
        if won {
            self.phase = Phase::Finished(side);
        }
    }

    /// Advances the simulation by one timer tick.
    pub fn advance(&mut self) -> (r: TickOutcome)
        requires
            old(self).wf(),
        ensures
            *final(self) == step(*old(self)),
            final(self).wf(),
            old(self).phase != Phase::Playing <==> r == TickOutcome::Idle,
            old(self).phase == Phase::Playing ==> match r {
                TickOutcome::Scored(side) => scorer(*old(self)) == Some(side),
                _ => scorer(*old(self)) is None,
            },
    {
        if self.phase != Phase::Playing {
            return TickOutcome::Idle;
        }
        let w = self.width as i64;
        let h = self.height as i64;
        let size = BALL_SIZE as i64;
        let nx = self.ball_x + self.vel_x;
        let ny = self.ball_y + self.vel_y;
        let right = self.vel_x > 0 && nx + size + COLLISION_MARGIN >= w - PADDLE_WIDTH as i64
            && ny + size > self.paddle_right as i64 && ny < (self.paddle_right
            + PADDLE_HEIGHT) as i64;
        let left = self.vel_x < 0 && nx <= PADDLE_WIDTH as i64 + COLLISION_MARGIN && ny + size
            > self.paddle_left as i64 && ny < (self.paddle_left + PADDLE_HEIGHT) as i64;
        if nx < 0 {
            self.score(Side::Right);
            return TickOutcome::Scored(Side::Right);
        }
        if nx >= w {
            self.score(Side::Left);
            return TickOutcome::Scored(Side::Left);
        }
        let right_limit = w - (PADDLE_INSET + PADDLE_WIDTH + BALL_SIZE) as i64;
        let left_limit = (PADDLE_INSET + PADDLE_WIDTH) as i64;
        if right && nx > right_limit {
            self.ball_x = right_limit;
        } else if left && nx < left_limit {
            self.ball_x = left_limit;
        } else {
            self.ball_x = nx;
        }
        let wall = ny < 0 || ny + size > h;
        if ny < 0 {
            self.ball_y = 0;
        } else if ny + size > h {
            self.ball_y = h - size;
        } else {
            self.ball_y = ny;
        }
        if wall {
            self.vel_y = -self.vel_y;
        }
        if right || left {
            self.vel_x = -self.vel_x;
        }
        TickOutcome::Moved
    }

    /// Applies one key press: paddle movement while playing, restart once finished.
    pub fn press(&mut self, k: KeyEvent)
        requires
            old(self).wf(),
        ensures
            *final(self) == on_key(*old(self), k),
            final(self).wf(),
    {
        if self.phase != Phase::Playing {
            if k == KeyEvent::Unicode('r') {
                self.reset();
            }
            return;
        }
        match k {
            KeyEvent::Unicode(c) => {
                if c == 'w' || c == 'W' {
                    self.paddle_left = step_up(self.paddle_left);
                } else if c == 's' || c == 'S' {
                    self.paddle_left = step_down(self.paddle_left, self.height);
                }
            },
            KeyEvent::ArrowUp => self.paddle_right = step_up(self.paddle_right),
            KeyEvent::ArrowDown => self.paddle_right = step_down(self.paddle_right, self.height),
            _ => {},
        }
    }
}

fn step_up(y: usize) -> (r: usize)
    ensures
        r == paddle_up(y),
{
    if y >= PADDLE_STEP {
        y - PADDLE_STEP
    } else {
        0
    }
}

fn step_down(y: usize, height: usize) -> (r: usize)
    requires
        y + PADDLE_HEIGHT <= height <= MAX_DIM,
    ensures
        r == paddle_down(y, height),
{
    if y + PADDLE_STEP + PADDLE_HEIGHT <= height {
        y + PADDLE_STEP
    } else {
        height - PADDLE_HEIGHT
    }
}

} // verus!
