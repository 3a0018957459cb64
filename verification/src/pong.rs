//! The decisions of the pong demo. Two paddles of 11 pixels run along the left
//! and right edge of the screen and chase the ball; the ball bounces off the
//! screen's edges. `Pong` holds the game state and its own copy of the screen
//! contents (one 64-bit word per row); each step returns the half-row writes
//! to send to the screen, which is refreshed after them.
use vstd::prelude::*;
use crate::{HEIGHT, WIDTH};

verus! {

/// Half the length of a paddle: a paddle at row `p` covers rows `p - 5` to `p + 5`.
pub const PADDLE_SIZE: usize = 5;

/// A write of `data` into word `word` (0 lower, 1 upper) of screen row `row`.
#[derive(Clone, Copy, PartialEq, Eq, Structural)]
pub struct LineWrite {
    pub row: usize,
    pub word: usize,
    pub data: u32,
}

/// The game state.
pub struct Pong {
    /// The game's copy of the screen, one 64-bit word per row.
    pub pixels: [u64; HEIGHT],
    /// Column and row of the ball.
    pub ball_pos: (usize, usize),
    /// Columns and rows the ball moves per step.
    pub ball_vel: (i8, i8),
    /// Centre row of the left paddle.
    pub p_left: usize,
    /// Centre row of the right paddle.
    pub p_right: usize,
}

/// The state of the game in specifications.
pub struct PongModel {
    pub pixels: Seq<u64>,
    pub ball_pos: (int, int),
    pub ball_vel: (int, int),
    pub p_left: int,
    pub p_right: int,
}

impl Pong {
    /// The state as mathematical values.
    pub open spec fn model(&self) -> PongModel {
        PongModel {
            pixels: self.pixels@,
            ball_pos: (self.ball_pos.0 as int, self.ball_pos.1 as int),
            ball_vel: (self.ball_vel.0 as int, self.ball_vel.1 as int),
            p_left: self.p_left as int,
            p_right: self.p_right as int,
        }
    }

    /// What every state of the game satisfies: the ball is on the screen below
    /// the top row, it moves 3 columns and 1 row per step, and the paddles
    /// stay between rows 5 and 42.
    pub open spec fn wf(&self) -> bool {
        &&& self.ball_pos.0 < WIDTH
        &&& 1 <= self.ball_pos.1 < HEIGHT
        &&& (self.ball_vel.0 == 3 || self.ball_vel.0 == -3)
        &&& (self.ball_vel.1 == 1 || self.ball_vel.1 == -1)
        &&& PADDLE_SIZE <= self.p_left <= HEIGHT - PADDLE_SIZE - 1
        &&& PADDLE_SIZE <= self.p_right <= HEIGHT - PADDLE_SIZE - 1
    }
}

/// The screen row of the initial game: both paddles drawn in rows 19 to 29.
pub open spec fn start_row(i: int) -> u64 {
    if 19 <= i <= 29 {
        0x8000_0000_0000_0001u64
    } else {
        0u64
    }
}

/// The writes that draw the initial paddles: the left paddle's rows first.
pub open spec fn start_writes() -> Seq<LineWrite> {
    Seq::new(22, |k: int| if k < 11 {
        LineWrite { row: (19 + k) as usize, word: 0, data: 1 }
    } else {
        LineWrite { row: (19 + k - 11) as usize, word: 1, data: 0x8000_0000 }
    })
}

/// Whether a paddle at row `p` moves down: towards the ball when the ball
/// comes its way (`defending`), otherwise back towards the middle row.
pub open spec fn paddle_goes_down(defending: bool, ball_row: int, p: int) -> bool {
    (defending && ball_row > p) || (!defending && p < 24)
}

/// The paddle step on one side (`word` 0 and `bit` 0 for the left paddle,
/// `word` 1 and `bit` 63 for the right one): the new centre row, the new
/// screen copy and the writes. Moving down clears the pixel at row `p - 5`
/// and sets it at row `p + 5`; moving up does the reverse; a paddle that
/// would leave rows 5 to 42 stays put.
pub open spec fn paddle_step(
    pixels: Seq<u64>,
    p: int,
    down: bool,
    word: usize,
    bit: u64,
) -> (int, Seq<u64>, Seq<LineWrite>) {
    let mask = 1u64 << bit;
    let on: u32 = if word == 0 { 1u32 } else { 0x8000_0000u32 };
    if down {
        if p + 5 < 47 {
            (
                p + 1,
                pixels.update(p - 5, pixels[p - 5] & !mask).update(p + 5, pixels[p + 5] | mask),
                seq![
                    LineWrite { row: (p - 5) as usize, word, data: 0 },
                    LineWrite { row: (p + 5) as usize, word, data: on },
                ],
            )
        } else {
            (p, pixels, seq![])
        }
    } else {
        if p - 5 > 0 {
            (
                p - 1,
                pixels.update(p - 5, pixels[p - 5] | mask).update(p + 5, pixels[p + 5] & !mask),
                seq![
                    LineWrite { row: (p - 5) as usize, word, data: on },
                    LineWrite { row: (p + 5) as usize, word, data: 0 },
                ],
            )
        } else {
            (p, pixels, seq![])
        }
    }
}

/// The write that sends the half of row `row` holding column `col` to the screen.
pub open spec fn half_row_write(pixels: Seq<u64>, row: int, col: int) -> LineWrite {
    LineWrite {
        row: row as usize,
        word: (col / 32) as usize,
        data: (pixels[row] >> (32 * (col / 32)) as u64) as u32,
    }
}

/// Whether the ball at `(col, row)` sits on a paddle's pixel, which erasing
/// the ball leaves lit.
pub open spec fn on_paddle(col: int, row: int, p_left: int, p_right: int) -> bool {
    (col == 0 && p_left - 5 <= row <= p_left + 5) || (col == WIDTH - 1 && p_right - 5 <= row
        <= p_right + 5)
}

/// The ball's velocity after bouncing: a component flips when the move would
/// take the ball off the screen (or, for rows, into row 0).
pub open spec fn bounced(pos: (int, int), vel: (int, int)) -> (int, int) {
    (
        if pos.0 + vel.0 < 0 || pos.0 + vel.0 >= WIDTH { -vel.0 } else { vel.0 },
        if pos.1 + vel.1 < 1 || pos.1 + vel.1 >= HEIGHT { -vel.1 } else { vel.1 },
    )
}

/// One step of the game: the left paddle moves, then the right paddle, then
/// the ball is erased (unless it sits on a paddle), bounces, moves and is
/// drawn again. The result is the new state and the writes, in order.
pub open spec fn tick_model(s: PongModel) -> (PongModel, Seq<LineWrite>) {
    let (pl, px1, w1) = paddle_step(
        s.pixels,
        s.p_left,
        paddle_goes_down(s.ball_vel.0 < 0, s.ball_pos.1, s.p_left),
        0,
        0,
    );
    let (pr, px2, w2) = paddle_step(
        px1,
        s.p_right,
        paddle_goes_down(s.ball_vel.0 > 0, s.ball_pos.1, s.p_right),
        1,
        63,
    );
    let (bx, by) = s.ball_pos;
    let px3 = if on_paddle(bx, by, pl, pr) {
        px2
    } else {
        px2.update(by, px2[by] & !(1u64 << bx as u64))
    };
    let w3 = half_row_write(px3, by, bx);
    let vel = bounced(s.ball_pos, s.ball_vel);
    let (nx, ny) = (bx + vel.0, by + vel.1);
    let px4 = px3.update(ny, px3[ny] | (1u64 << nx as u64));
    let w4 = half_row_write(px4, ny, nx);
    (
        PongModel { pixels: px4, ball_pos: (nx, ny), ball_vel: vel, p_left: pl, p_right: pr },
        w1 + w2 + seq![w3, w4],
    )
}

/// Moves one paddle; returns its writes.
fn move_paddle(pixels: &mut [u64; HEIGHT], p: &mut usize, down: bool, word: usize, bit: u64) -> (writes: Vec<LineWrite>)
    requires
        PADDLE_SIZE <= *old(p) <= HEIGHT - PADDLE_SIZE - 1,
        word < 2,
        bit < 64,
        word == 0 ==> bit == 0,
        word == 1 ==> bit == 63,
    ensures
        PADDLE_SIZE <= *final(p) <= HEIGHT - PADDLE_SIZE - 1,
        (*final(p) as int, final(pixels)@, writes@) == paddle_step(
            old(pixels)@,
            *old(p) as int,
            down,
            word,
            bit,
        ),
{
    let mask: u64 = 1u64 << bit;
    let on: u32 = if word == 0 { 1 } else { 0x8000_0000 };
    let mut writes: Vec<LineWrite> = Vec::new();
    let c: usize = *p;
    if down {
        if c + PADDLE_SIZE < HEIGHT - 1 {
            writes.push(LineWrite { row: c - PADDLE_SIZE, word, data: 0 });
            pixels[c - PADDLE_SIZE] = pixels[c - PADDLE_SIZE] & !mask;
            writes.push(LineWrite { row: c + PADDLE_SIZE, word, data: on });
            pixels[c + PADDLE_SIZE] = pixels[c + PADDLE_SIZE] | mask;
            *p = c + 1;
        }
    } else {
        if c - PADDLE_SIZE > 0 {
            writes.push(LineWrite { row: c - PADDLE_SIZE, word, data: on });
            pixels[c - PADDLE_SIZE] = pixels[c - PADDLE_SIZE] | mask;
            writes.push(LineWrite { row: c + PADDLE_SIZE, word, data: 0 });
            pixels[c + PADDLE_SIZE] = pixels[c + PADDLE_SIZE] & !mask;
            *p = c - 1;
        }
    }
    proof {
        assert(writes@ =~= paddle_step(old(pixels)@, c as int, down, word, bit).2);
        assert(pixels@ =~= paddle_step(old(pixels)@, c as int, down, word, bit).1);
    }
    writes
}

impl Pong {
    /// The initial game, and the writes that draw the two paddles: the ball at
    /// column 32, row 24, moving 3 columns right and 1 row down per step, and
    /// both paddles centred on row 24.
    pub fn start() -> (r: (Pong, Vec<LineWrite>))
        ensures
            r.0.wf(),
            r.0.model() == (PongModel {
                pixels: Seq::new(HEIGHT as nat, |i: int| start_row(i)),
                ball_pos: (32, 24),
                ball_vel: (3, 1),
                p_left: 24,
                p_right: 24,
            }),
            r.1@ == start_writes(),
    {
        let mut pixels: [u64; HEIGHT] = [0u64; 48];
        let p_left: usize = HEIGHT / 2;
        let p_right: usize = HEIGHT / 2;
        let mut writes: Vec<LineWrite> = Vec::new();
        let mut i: usize = p_left - PADDLE_SIZE;
        while i <= p_left + PADDLE_SIZE
            invariant
                19 <= i <= 30,
                p_left == 24,
                writes@.len() == i - 19,
                forall|k: int| 0 <= k < i - 19 ==> writes@[k] == start_writes()[k],
                forall|k: int| 0 <= k < HEIGHT ==> pixels@[k] == if 19 <= k < i {
                    1u64
                } else {
                    0u64
                },
            decreases 30 - i,
        {
            let data: u32 = 0x00000001;
            writes.push(LineWrite { row: i, word: 0, data });
            pixels[i] = pixels[i] | (0xFFFFFFFF & data) as u64;
            assert(0u64 | ((0xFFFFFFFFu32 & 1u32) as u64) == 1u64) by (bit_vector);
            i = i + 1;
        }
        let mut i: usize = p_right - PADDLE_SIZE;
        while i <= p_right + PADDLE_SIZE
            invariant
                19 <= i <= 30,
                p_right == 24,
                writes@.len() == 11 + i - 19,
                forall|k: int| 0 <= k < 11 + i - 19 ==> writes@[k] == start_writes()[k],
                forall|k: int| 0 <= k < HEIGHT ==> pixels@[k] == if 19 <= k < i {
                    0x8000_0000_0000_0001u64
                } else if 19 <= k <= 29 {
                    1u64
                } else {
                    0u64
                },
            decreases 30 - i,
        {
            let data: u32 = 0x80000000;
            writes.push(LineWrite { row: i, word: 1, data });
            pixels[i] = pixels[i] | ((data as u64) << 32);
            assert(1u64 | ((0x80000000u32 as u64) << 32u64) == 0x8000_0000_0000_0001u64)
                by (bit_vector);
            i = i + 1;
        }
        let game = Pong { pixels, ball_pos: (WIDTH / 2, HEIGHT / 2), ball_vel: (3, 1), p_left, p_right };
        proof {
            assert(game.model().pixels =~= Seq::new(HEIGHT as nat, |i: int| start_row(i)));
            assert(writes@ =~= start_writes());
        }
        (game, writes)
    }

    /// One step of the game (see `tick_model`); returns the writes to send
    /// to the screen, after which the screen is refreshed.
    pub fn tick(&mut self) -> (writes: Vec<LineWrite>)
        requires
            old(self).wf(),
        ensures
            final(self).wf(),
            (final(self).model(), writes@) == tick_model(old(self).model()),
    {
        let ghost s = self.model();
        // Move left platform
        let defense_left = self.ball_vel.0 < 0;
        let down_left = (defense_left && self.ball_pos.1 > self.p_left) || (!defense_left
            && self.p_left < HEIGHT / 2);
        let mut pixels = self.pixels;
        let mut p_left = self.p_left;
        let mut writes = move_paddle(&mut pixels, &mut p_left, down_left, 0, 0);
        // Move right platform
        let defense_right = self.ball_vel.0 > 0;
        let down_right = (defense_right && self.ball_pos.1 > self.p_right) || (!defense_right
            && self.p_right < HEIGHT / 2);
        let mut p_right = self.p_right;
        let mut more = move_paddle(&mut pixels, &mut p_right, down_right, 1, 63);
        writes.append(&mut more);
        // Erase old ball
        let (bx, by) = self.ball_pos;
        let erase = erase_ball(&mut pixels, bx, by, p_left, p_right);
        writes.push(erase);
        // Update new ball position
        let vel = bounce(self.ball_pos, self.ball_vel);
        let nx = (bx as i8 + vel.0) as usize;
        let ny = (by as i8 + vel.1) as usize;
        // Draw new ball
        let draw = draw_ball(&mut pixels, nx, ny);
        writes.push(draw);
        self.pixels = pixels;
        self.ball_pos = (nx, ny);
        self.ball_vel = vel;
        self.p_left = p_left;
        self.p_right = p_right;
        proof {
            let t = tick_model(s);
            assert(writes@ =~= t.1);
            assert(self.model() == t.0);
        }
        writes
    }
}

/// Erases the ball at `(bx, by)` from the screen copy unless it sits on a
/// paddle; returns the write of the half row it was in.
fn erase_ball(pixels: &mut [u64; HEIGHT], bx: usize, by: usize, p_left: usize, p_right: usize) -> (write: LineWrite)
    requires
        bx < WIDTH,
        by < HEIGHT,
        PADDLE_SIZE <= p_left,
        PADDLE_SIZE <= p_right,
        p_left + PADDLE_SIZE < HEIGHT,
        p_right + PADDLE_SIZE < HEIGHT,
    ensures
        final(pixels)@ == (if on_paddle(bx as int, by as int, p_left as int, p_right as int) {
            old(pixels)@
        } else {
            old(pixels)@.update(by as int, old(pixels)@[by as int] & !(1u64 << bx as u64))
        }),
        write == half_row_write(final(pixels)@, by as int, bx as int),
{
    let word = bx / 32;
    if !(bx == 0 && by >= p_left - PADDLE_SIZE && by <= p_left + PADDLE_SIZE) && !(bx == WIDTH - 1
        && by >= p_right - PADDLE_SIZE && by <= p_right + PADDLE_SIZE) {
        pixels[by] = pixels[by] & !(1u64 << bx);
    }
    proof {
        assert(pixels@ =~= (if on_paddle(bx as int, by as int, p_left as int, p_right as int) {
            old(pixels)@
        } else {
            old(pixels)@.update(by as int, old(pixels)@[by as int] & !(1u64 << bx as u64))
        }));
    }
    LineWrite { row: by, word, data: (pixels[by] >> (32 * word)) as u32 }
}

/// The ball's velocity after bouncing off the screen's edges.
fn bounce(pos: (usize, usize), vel: (i8, i8)) -> (v: (i8, i8))
    requires
        pos.0 < WIDTH,
        1 <= pos.1 < HEIGHT,
        vel.0 == 3 || vel.0 == -3,
        vel.1 == 1 || vel.1 == -1,
    ensures
        (v.0 as int, v.1 as int) == bounced(
            (pos.0 as int, pos.1 as int),
            (vel.0 as int, vel.1 as int),
        ),
        v.0 == 3 || v.0 == -3,
        v.1 == 1 || v.1 == -1,
        0 <= pos.0 + v.0 < WIDTH,
        1 <= pos.1 + v.1 < HEIGHT,
{
    let mut v = vel;
    if pos.0 as i8 + v.0 < 0 || pos.0 as i8 + v.0 >= WIDTH as i8 {
        v.0 = -v.0;
    }
    if pos.1 as i8 + v.1 < 1 || pos.1 as i8 + v.1 >= HEIGHT as i8 {
        v.1 = -v.1;
    }
    v
}

/// Draws the ball at `(nx, ny)` into the screen copy; returns the write of
/// the half row it is in.
fn draw_ball(pixels: &mut [u64; HEIGHT], nx: usize, ny: usize) -> (write: LineWrite)
    requires
        nx < WIDTH,
        ny < HEIGHT,
    ensures
        final(pixels)@ == old(pixels)@.update(ny as int, old(pixels)@[ny as int] | (1u64 << nx as u64)),
        write == half_row_write(final(pixels)@, ny as int, nx as int),
{
    let word = nx / 32;
    pixels[ny] = pixels[ny] | (1u64 << nx);
    proof {
        assert(pixels@ =~= old(pixels)@.update(ny as int, old(pixels)@[ny as int] | (1u64 << nx as u64)));
    }
    LineWrite { row: ny, word, data: (pixels[ny] >> (32 * word)) as u32 }
}

/// The paddles chase the ball: the paddle the ball moves towards (the right
/// one while the ball moves right, the left one while it moves left) steps one
/// row down when the ball is below its centre and it is above its lowest
/// position, and does not step down when the ball is above its centre; the
/// other paddle steps back towards row 24. A paddle moves at most one row.
pub proof fn paddles_chase_the_ball(g: Pong)
    requires
        g.wf(),
    ensures
        ({
            let s = g.model();
            let t = tick_model(s).0;
            &&& s.ball_vel.0 > 0 && s.ball_pos.1 > s.p_right && s.p_right + 5 < 47 ==> t.p_right
                == s.p_right + 1
            &&& s.ball_vel.0 > 0 && s.ball_pos.1 < s.p_right ==> t.p_right <= s.p_right
            &&& s.ball_vel.0 < 0 && s.ball_pos.1 > s.p_left && s.p_left + 5 < 47 ==> t.p_left
                == s.p_left + 1
            &&& s.ball_vel.0 < 0 && s.ball_pos.1 < s.p_left ==> t.p_left <= s.p_left
            &&& s.ball_vel.0 > 0 && s.p_left < 24 ==> t.p_left == s.p_left + 1
            &&& s.ball_vel.0 > 0 && s.p_left >= 24 ==> t.p_left == s.p_left - 1
            &&& s.ball_vel.0 < 0 && s.p_right < 24 ==> t.p_right == s.p_right + 1
            &&& s.ball_vel.0 < 0 && s.p_right >= 24 ==> t.p_right == s.p_right - 1
            &&& s.p_left - 1 <= t.p_left <= s.p_left + 1
            &&& s.p_right - 1 <= t.p_right <= s.p_right + 1
        }),
{
}

/// The ball moves by its velocity after bouncing: each component keeps its
/// size, and flips exactly when moving by it would take the ball off the
/// screen (for rows: into row 0 or below row 47).
pub proof fn ball_bounces_off_the_edges(g: Pong)
    requires
        g.wf(),
    ensures
        ({
            let s = g.model();
            let t = tick_model(s).0;
            &&& t.ball_pos.0 == s.ball_pos.0 + t.ball_vel.0
            &&& t.ball_pos.1 == s.ball_pos.1 + t.ball_vel.1
            &&& (t.ball_vel.0 == s.ball_vel.0 || t.ball_vel.0 == -s.ball_vel.0)
            &&& (t.ball_vel.1 == s.ball_vel.1 || t.ball_vel.1 == -s.ball_vel.1)
            &&& (t.ball_vel.0 == s.ball_vel.0 <==> 0 <= s.ball_pos.0 + s.ball_vel.0 < 64)
            &&& (t.ball_vel.1 == s.ball_vel.1 <==> 1 <= s.ball_pos.1 + s.ball_vel.1 < 48)
        }),
{
}

/// The writes of a step: two for each paddle that moved (the row it leaves,
/// then the row it enters: a paddle moving down first clears the pixel 5 rows
/// above its old centre and lights the one 5 rows below, moving up the
/// reverse), the left paddle's first, then the half row of the ball's old
/// position and the half row of its new position, each as the screen copy
/// holds it after the step. The ball is lit at its new position, and unlit at
/// its old one unless a paddle covers that pixel.
pub proof fn step_writes_paddles_and_ball(g: Pong)
    requires
        g.wf(),
    ensures
        ({
            let s = g.model();
            let (t, w) = tick_model(s);
            let left_moves: int = if t.p_left != s.p_left { 2 } else { 0 };
            let right_moves: int = if t.p_right != s.p_right { 2 } else { 0 };
            let (bx, by) = s.ball_pos;
            let (nx, ny) = t.ball_pos;
            &&& w.len() == left_moves + right_moves + 2
            &&& t.p_left == s.p_left + 1 ==> w[0] == (LineWrite {
                row: (s.p_left - 5) as usize,
                word: 0,
                data: 0,
            }) && w[1] == (LineWrite { row: (s.p_left + 5) as usize, word: 0, data: 1 })
            &&& t.p_left == s.p_left - 1 ==> w[0] == (LineWrite {
                row: (s.p_left - 5) as usize,
                word: 0,
                data: 1,
            }) && w[1] == (LineWrite { row: (s.p_left + 5) as usize, word: 0, data: 0 })
            &&& t.p_right == s.p_right + 1 ==> w[left_moves] == (LineWrite {
                row: (s.p_right - 5) as usize,
                word: 1,
                data: 0,
            }) && w[left_moves + 1] == (LineWrite {
                row: (s.p_right + 5) as usize,
                word: 1,
                data: 0x8000_0000,
            })
            &&& t.p_right == s.p_right - 1 ==> w[left_moves] == (LineWrite {
                row: (s.p_right - 5) as usize,
                word: 1,
                data: 0x8000_0000,
            }) && w[left_moves + 1] == (LineWrite {
                row: (s.p_right + 5) as usize,
                word: 1,
                data: 0,
            })
            &&& w[w.len() - 1] == (LineWrite {
                row: ny as usize,
                word: (nx / 32) as usize,
                data: (t.pixels[ny] >> (32 * (nx / 32)) as u64) as u32,
            })
            &&& w[w.len() - 2].row == by && w[w.len() - 2].word == bx / 32
            &&& (t.pixels[ny] >> (nx as u64)) & 1 == 1
            &&& ny != by && !((bx == 0 && t.p_left - 5 <= by <= t.p_left + 5) || (bx == 63
                && t.p_right - 5 <= by <= t.p_right + 5)) ==> (t.pixels[by] >> (bx as u64)) & 1
                == 0
        }),
{
    let s = g.model();
    let (t, w) = tick_model(s);
    let (bx, by) = s.ball_pos;
    let (nx, ny) = t.ball_pos;
    let p = t.pixels[ny];
    let x = nx as u64;
    assert(0 <= nx < 64);
    let before = {
        let (pl, px1, w1) = paddle_step(
            s.pixels,
            s.p_left,
            paddle_goes_down(s.ball_vel.0 < 0, s.ball_pos.1, s.p_left),
            0,
            0,
        );
        let (pr, px2, w2) = paddle_step(
            px1,
            s.p_right,
            paddle_goes_down(s.ball_vel.0 > 0, s.ball_pos.1, s.p_right),
            1,
            63,
        );
        if on_paddle(bx, by, pl, pr) {
            px2
        } else {
            px2.update(by, px2[by] & !(1u64 << bx as u64))
        }
    };
    let q = before[ny];
    assert(p == q | (1u64 << x));
    assert(((q | (1u64 << x)) >> x) & 1 == 1) by (bit_vector)
        requires
            x < 64,
    ;
    if ny != by {
        let b = bx as u64;
        assert(0 <= bx < 64);
        let r = before[by];
        if !on_paddle(bx, by, t.p_left, t.p_right) {
            assert(t.pixels[by] == r);
            let z = r;
            assert(exists|y: u64| z == y & !(1u64 << b)) by {
                let pre = {
                    let (pl, px1, w1) = paddle_step(
                        s.pixels,
                        s.p_left,
                        paddle_goes_down(s.ball_vel.0 < 0, s.ball_pos.1, s.p_left),
                        0,
                        0,
                    );
                    let (pr, px2, w2) = paddle_step(
                        px1,
                        s.p_right,
                        paddle_goes_down(s.ball_vel.0 > 0, s.ball_pos.1, s.p_right),
                        1,
                        63,
                    );
                    px2
                };
                assert(z == pre[by] & !(1u64 << b));
            }
            let y = choose|y: u64| z == y & !(1u64 << b);
            assert(((y & !(1u64 << b)) >> b) & 1 == 0) by (bit_vector)
                requires
                    b < 64,
            ;
        }
    }
}

} // verus!
