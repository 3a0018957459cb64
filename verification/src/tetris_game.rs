//! The decisions of the tetris game, one step of its loop at a time. Each
//! step first looks for a collision below the falling piece (ending the game
//! when the piece has not left its spawn row), then either spawns a new piece
//! (after clearing full rows) or lifts the piece off the board and moves or
//! rotates it by the input, and finally draws the piece one row lower. The
//! caller shows the board before each step and supplies the input read then
//! and the table of piece shapes (7 pieces of 4 rotations of 4 rows).
use vstd::prelude::*;
use crate::HEIGHT;
use crate::tetris::{
    bottom_row,
    clear_tiles,
    cleared,
    create_board,
    empty_board_row,
    find_bottom,
    find_top,
    get_rand,
    top_row,
};

verus! {

/// The row above which new pieces appear.
pub const TOP: usize = 7;

/// The column at which new pieces appear.
pub const MIDDLE: usize = 30;

/// Input flag: rotate the piece forwards.
pub const UP: u32 = 1;

/// Input flag: rotate the piece backwards.
pub const DOWN: u32 = 2;

/// Input flag: move the piece one column towards bit 0.
pub const LEFT: u32 = 4;

/// Input flag: move the piece one column towards bit 63.
pub const RIGHT: u32 = 8;

/// The table of pieces: 7 shapes, each in 4 rotations of 4 rows.
pub type Shapes = [[[u64; 4]; 4]; 7];

/// The game state.
pub struct Tetris {
    /// The board as shown, the falling piece drawn in.
    pub curr_board: [u64; HEIGHT],
    /// The empty board, whose walls are drawn over the board after each step.
    pub base_board: [u64; HEIGHT],
    /// Whether the next step spawns a new piece.
    pub new_tile: bool,
    /// The rotations of the current piece.
    pub shape: [[u64; 4]; 4],
    /// The current rotation of the piece, unshifted.
    pub a: [u64; 4],
    /// The piece's rows where it moves next.
    pub new_pos: [u64; 4],
    /// The piece's rows where it is now.
    pub curr_pos: [u64; 4],
    /// Index of the piece's lowest non-empty row.
    pub n: usize,
    /// The board row of the piece's first row, plus one.
    pub r: usize,
    /// The shift of the piece's rows.
    pub tile_pos: usize,
    /// Index of the rotation in `shape`.
    pub rot: usize,
    /// The pseudo-random state.
    pub rand: usize,
}

/// The game state in specifications.
pub struct TetrisModel {
    pub board: Seq<u64>,
    pub base: Seq<u64>,
    pub new_tile: bool,
    pub shape: [[u64; 4]; 4],
    pub a: [u64; 4],
    pub new_pos: Seq<u64>,
    pub curr_pos: Seq<u64>,
    pub n: int,
    pub r: int,
    pub tile_pos: int,
    pub rot: int,
    pub rand: int,
}

impl Tetris {
    /// The state as mathematical values.
    pub open spec fn model(&self) -> TetrisModel {
        TetrisModel {
            board: self.curr_board@,
            base: self.base_board@,
            new_tile: self.new_tile,
            shape: self.shape,
            a: self.a,
            new_pos: self.new_pos@,
            curr_pos: self.curr_pos@,
            n: self.n as int,
            r: self.r as int,
            tile_pos: self.tile_pos as int,
            rot: self.rot as int,
            rand: self.rand as int,
        }
    }

    /// What every state of the game satisfies: the piece's rows lie on the
    /// board, the rotation indexes `shape`, and the random state is below 81.
    pub open spec fn wf(&self) -> bool {
        &&& self.n < 4
        &&& 1 <= self.r <= 40
        &&& self.rot < 4
        &&& self.rand < 81
    }
}

/// The row at which a collision ends the game: the piece is still where it
/// was spawned.
pub open spec fn game_over_row(s: TetrisModel) -> int {
    TOP - top_row(s.a@) + 2
}

/// The piece's lowest row overlaps the board row it is drawn in.
pub open spec fn first_hit(s: TetrisModel) -> bool {
    s.board[s.r + s.n] & s.curr_pos[s.n] != 0
}

/// The row above the piece's lowest row meets a filled cell of the board
/// that the lowest row does not cover.
pub open spec fn second_hit(s: TetrisModel) -> bool {
    (!s.curr_pos[s.n] & s.board[s.r + s.n - 1]) & s.curr_pos[s.n - 1] != 0
}

/// The end of the game: the board fills up and nothing else changes.
pub open spec fn game_over(s: TetrisModel) -> TetrisModel {
    TetrisModel { board: Seq::new(HEIGHT as nat, |i: int| u64::MAX), ..s }
}

/// The next pseudo-random state.
pub open spec fn next_rand(x: int) -> int {
    (690697 * x + 1) % 81
}

/// Spawning a piece: full rows are cleared, two random steps pick the shape
/// (of `shapes`) and its rotation, and the piece is placed at column
/// `MIDDLE` with its top row just below row `TOP`.
pub open spec fn spawn(s: TetrisModel, shapes: Shapes) -> TetrisModel {
    let rand1 = next_rand(s.rand);
    let shape = shapes@[rand1 % 7];
    let rand2 = next_rand(rand1);
    let rot = rand2 % 4;
    let a = shape@[rot];
    TetrisModel {
        board: cleared(s.board),
        rand: rand2,
        shape,
        rot,
        a,
        tile_pos: MIDDLE as int,
        n: bottom_row(s.new_pos),
        r: TOP - top_row(a@) + 1,
        new_pos: Seq::new(4, |i: int| a@[i] << (MIDDLE as u64)),
        new_tile: false,
        ..s
    }
}

/// The board with the piece's rows `pos`, drawn from row `r - 1`, taken out.
pub open spec fn lifted(board: Seq<u64>, pos: Seq<u64>, r: int) -> Seq<u64> {
    Seq::new(
        board.len(),
        |k: int| if r - 1 <= k < r + 3 { !pos[k - r + 1] & board[k] } else { board[k] },
    )
}

/// A piece with rows `cand`, drawn from row `r`, overlaps the board.
pub open spec fn collides(board: Seq<u64>, cand: Seq<u64>, r: int) -> bool {
    exists|i: int| 0 <= i < 4 && #[trigger] board[i + r] & cand[i] != 0
}

/// Rotation `rot` of `shape` shifted by `tile_pos`.
pub open spec fn placed(a: [u64; 4], tile_pos: int) -> Seq<u64> {
    Seq::new(4, |i: int| a@[i] << (tile_pos as u64))
}

/// The rotation after `rot` going forwards.
pub open spec fn rot_up(rot: int) -> int {
    if rot != 3 { rot + 1 } else { 0 }
}

/// The rotation after `rot` going backwards.
pub open spec fn rot_down(rot: int) -> int {
    if rot != 0 { rot - 1 } else { 3 }
}

/// Moving the piece: it is lifted off the board, then the input moves it
/// (left before right before rotating forwards before rotating backwards;
/// with no flag it stays); a move whose rows would overlap the board is
/// undone.
pub open spec fn move_piece(s: TetrisModel, input: u32) -> TetrisModel {
    let board = lifted(s.board, s.curr_pos, s.r);
    let left = input & LEFT != 0;
    let right = input & RIGHT != 0;
    let up = input & UP != 0;
    let down = input & DOWN != 0;
    let m = if left {
        TetrisModel {
            new_pos: Seq::new(4, |i: int| s.curr_pos[i] >> 1u64),
            tile_pos: s.tile_pos - 1,
            ..s
        }
    } else if right {
        TetrisModel {
            new_pos: Seq::new(4, |i: int| s.curr_pos[i] << 1u64),
            tile_pos: s.tile_pos + 1,
            ..s
        }
    } else if up {
        let rot = rot_up(s.rot);
        TetrisModel {
            rot,
            a: s.shape@[rot],
            new_pos: placed(s.shape@[rot], s.tile_pos),
            ..s
        }
    } else if down {
        let rot = rot_down(s.rot);
        TetrisModel {
            rot,
            a: s.shape@[rot],
            new_pos: placed(s.shape@[rot], s.tile_pos),
            ..s
        }
    } else {
        s
    };
    TetrisModel {
        board,
        new_pos: if collides(board, m.new_pos, s.r) { s.curr_pos } else { m.new_pos },
        ..m
    }
}

/// Drawing the piece: its new rows become its current rows and are drawn
/// from row `r`, the walls are drawn over the board, and the piece drops one
/// row (until row 40).
pub open spec fn place(s: TetrisModel) -> TetrisModel {
    let pos = s.new_pos;
    TetrisModel {
        curr_pos: pos,
        n: bottom_row(pos),
        board: Seq::new(
            s.board.len(),
            |k: int|
                (if s.r <= k < s.r + 4 { pos[k - s.r] | s.board[k] } else { s.board[k] })
                    | s.base[k],
        ),
        r: if s.r < 40 { s.r + 1 } else { s.r },
        ..s
    }
}

/// One step of the game.
pub open spec fn tetris_step(s: TetrisModel, input: u32, shapes: Shapes) -> TetrisModel {
    if first_hit(s) && s.r == game_over_row(s) {
        game_over(s)
    } else {
        let s1 = TetrisModel { new_tile: s.new_tile || first_hit(s), ..s };
        if second_hit(s) && s.r == game_over_row(s) {
            game_over(s1)
        } else {
            let s2 = TetrisModel { new_tile: s1.new_tile || second_hit(s), ..s1 };
            place(if s2.new_tile { spawn(s2, shapes) } else { move_piece(s2, input) })
        }
    }
}

/// The input can be applied to the piece: moving left needs a shift to
/// take away, moving right a shift that can grow, and a rotation a shift
/// below 64.
pub open spec fn input_ok(s: TetrisModel, input: u32) -> bool {
    if input & LEFT != 0 {
        s.tile_pos >= 1
    } else if input & RIGHT != 0 {
        s.tile_pos < usize::MAX
    } else if input & UP != 0 || input & DOWN != 0 {
        s.tile_pos < 64
    } else {
        true
    }
}

/// The step does not fail: unless the game ends at the first check, the
/// piece's lowest row has a row above it in the piece (the second check
/// reads it), and a move that the input asks for can be applied.
pub open spec fn can_step(s: TetrisModel, input: u32) -> bool {
    ||| first_hit(s) && s.r == game_over_row(s)
    ||| s.n >= 1 && ((second_hit(s) && s.r == game_over_row(s)) || s.new_tile || first_hit(s)
        || second_hit(s) || input_ok(s, input))
}

impl Tetris {
    /// The game before its first step: the empty board, no piece placed yet
    /// (the first step spawns one), and `start_piece` as the current rotation.
    pub fn new(start_piece: [u64; 4]) -> (g: Tetris)
        ensures
            g.wf(),
            g.curr_board@ == Seq::new(HEIGHT as nat, |i: int| empty_board_row(i)),
            g.base_board@ == Seq::new(HEIGHT as nat, |i: int| empty_board_row(i)),
            g.new_tile,
            forall|i: int, j: int| 0 <= i < 4 && 0 <= j < 4 ==> g.shape@[i]@[j] == 0,
            g.a == start_piece,
            g.new_pos@ == seq![0u64, 0u64, 0u64, 0u64],
            g.curr_pos@ == seq![0u64, 0u64, 0u64, 0u64],
            g.n == bottom_row(start_piece@),
            g.r == TOP + bottom_row(start_piece@),
            g.tile_pos == MIDDLE,
            g.rot == 0,
            g.rand == 67,
    {
        let base_board = create_board();
        let curr_board = create_board();
        let n = find_bottom(&start_piece);
        let g = Tetris {
            curr_board,
            base_board,
            new_tile: true,
            shape: [[0u64; 4]; 4],
            a: start_piece,
            new_pos: [0u64; 4],
            curr_pos: [0u64; 4],
            n,
            r: TOP + n,
            tile_pos: MIDDLE,
            rot: 0,
            rand: 67,
        };
        proof {
            assert(g.curr_board@ =~= Seq::new(HEIGHT as nat, |i: int| empty_board_row(i)));
            assert(g.base_board@ =~= Seq::new(HEIGHT as nat, |i: int| empty_board_row(i)));
            assert(g.new_pos@ =~= seq![0u64, 0u64, 0u64, 0u64]);
            assert(g.curr_pos@ =~= seq![0u64, 0u64, 0u64, 0u64]);
        }
        g
    }

    /// Whether `tick` can take a step with this input (see `can_step`).
    pub fn can_tick(&self, input: u32) -> (ok: bool)
        requires
            self.wf(),
        ensures
            ok == can_step(self.model(), input),
    {
        let go_row = TOP - find_top(&self.a) + 2;
        let r = self.r;
        let n = self.n;
        if (self.curr_board[r + n] & self.curr_pos[n]) > 0 && r == go_row {
            return true;
        }
        if n < 1 {
            return false;
        }
        let second = ((!self.curr_pos[n] & self.curr_board[r + n - 1]) & self.curr_pos[n - 1]) > 0;
        if second || self.new_tile || (self.curr_board[r + n] & self.curr_pos[n]) > 0 {
            return true;
        }
        if input & LEFT != 0 {
            self.tile_pos >= 1
        } else if input & RIGHT != 0 {
            self.tile_pos < usize::MAX
        } else if input & UP != 0 || input & DOWN != 0 {
            self.tile_pos < 64
        } else {
            true
        }
    }

    /// One step of the game (see `tetris_step`); returns the board to show.
    pub fn tick(&mut self, input: u32, shapes: &Shapes) -> (frame: [u64; HEIGHT])
        requires
            old(self).wf(),
            can_step(old(self).model(), input),
        ensures
            final(self).wf(),
            final(self).model() == tetris_step(old(self).model(), input, *shapes),
            frame == final(self).curr_board,
    {
        let ghost s = self.model();
        let go_row = TOP - find_top(&self.a) + 2;
        if (self.curr_board[self.r + self.n] & self.curr_pos[self.n]) > 0 {
            if self.r == go_row {
                self.curr_board = [u64::MAX; 48];
                proof {
                    assert(self.model().board =~= game_over(s).board);
                }
                return self.curr_board;
            }
            self.new_tile = true;
        }
        if ((!self.curr_pos[self.n] & self.curr_board[self.r + self.n - 1]) & self.curr_pos[self.n
            - 1]) > 0 {
            if self.r == go_row {
                self.curr_board = [u64::MAX; 48];
                proof {
                    assert(self.model().board =~= game_over(s).board);
                }
                return self.curr_board;
            }
            self.new_tile = true;
        }
        let ghost s2 = self.model();
        if self.new_tile {
            self.spawn(shapes);
        } else {
            self.move_piece(input);
        }
        let ghost s3 = self.model();
        self.place();
        proof {
            assert(s3 == if s2.new_tile { spawn(s2, *shapes) } else { move_piece(s2, input) });
        }
        self.curr_board
    }

    /// Clears full rows and spawns a piece (see `spawn`).
    #[verifier::loop_isolation(false)]
    fn spawn(&mut self, shapes: &Shapes)
        requires
            old(self).wf(),
        ensures
            final(self).model() == spawn(old(self).model(), *shapes),
            final(self).n < 4,
            5 <= final(self).r <= 8,
            final(self).rot < 4,
            final(self).rand < 81,
    {
        let ghost s = self.model();
        let mut board = self.curr_board;
        clear_tiles(&mut board);
        let rand1 = get_rand(self.rand);
        let shape = shapes[rand1 % 7];
        let rand2 = get_rand(rand1);
        let rot = rand2 % 4;
        let a = shape[rot];
        let n = find_bottom(&self.new_pos);
        let r = TOP - find_top(&a) + 1;
        let mut new_pos: [u64; 4] = [0u64; 4];
        let mut i: usize = 0;
        while i < 4
            invariant
                i <= 4,
                forall|k: int| 0 <= k < i ==> new_pos@[k] == a@[k] << (MIDDLE as u64),
            decreases 4 - i,
        {
            new_pos[i] = a[i] << MIDDLE;
            i = i + 1;
        }
        self.curr_board = board;
        self.rand = rand2;
        self.shape = shape;
        self.rot = rot;
        self.a = a;
        self.tile_pos = MIDDLE;
        self.n = n;
        self.r = r;
        self.new_pos = new_pos;
        self.new_tile = false;
        proof {
            let t = spawn(s, *shapes);
            assert(new_pos@ =~= t.new_pos);
            assert(self.model() == t);
        }
    }

    /// Lifts the piece off the board and moves it by the input (see
    /// `move_piece`).
    #[verifier::loop_isolation(false)]
    fn move_piece(&mut self, input: u32)
        requires
            old(self).wf(),
            input_ok(old(self).model(), input),
        ensures
            final(self).model() == move_piece(old(self).model(), input),
            final(self).n == old(self).n,
            final(self).r == old(self).r,
            final(self).rot < 4,
            final(self).rand == old(self).rand,
    {
        let ghost s = self.model();
        let r = self.r;
        let curr_pos = self.curr_pos;
        let mut board = self.curr_board;
        let mut i: usize = 0;
        while i < 4
            invariant
                i <= 4,
                board@.len() == HEIGHT,
                forall|k: int| 0 <= k < HEIGHT ==> #[trigger] board@[k] == if r - 1 <= k < r - 1 + i {
                    !s.curr_pos[k - r + 1] & s.board[k]
                } else {
                    s.board[k]
                },
            decreases 4 - i,
        {
            board[i + r - 1] = !curr_pos[i] & board[i + r - 1];
            i = i + 1;
        }
        proof {
            assert(board@ =~= lifted(s.board, s.curr_pos, s.r));
        }
        let left = input & LEFT != 0;
        let right = input & RIGHT != 0;
        let up = input & UP != 0;
        let down = input & DOWN != 0;
        let mut tile_pos = self.tile_pos;
        let mut rot = self.rot;
        let mut a = self.a;
        let mut new_pos = self.new_pos;
        if left {
            tile_pos = tile_pos - 1;
            let mut i: usize = 0;
            while i < 4
                invariant
                    i <= 4,
                    forall|k: int| 0 <= k < i ==> new_pos@[k] == curr_pos@[k] >> 1u64,
                decreases 4 - i,
            {
                new_pos[i] = curr_pos[i] >> 1;
                i = i + 1;
            }
        } else if right {
            tile_pos = tile_pos + 1;
            let mut i: usize = 0;
            while i < 4
                invariant
                    i <= 4,
                    forall|k: int| 0 <= k < i ==> new_pos@[k] == curr_pos@[k] << 1u64,
                decreases 4 - i,
            {
                new_pos[i] = curr_pos[i] << 1;
                i = i + 1;
            }
        } else if up || down {
            if up {
                if !(rot == 3) {
                    rot = rot + 1;
                } else {
                    rot = 0;
                }
            } else {
                if !(rot == 0) {
                    rot = rot - 1;
                } else {
                    rot = 3;
                }
            }
            a = self.shape[rot];
            let mut i: usize = 0;
            while i < 4
                invariant
                    i <= 4,
                    forall|k: int| 0 <= k < i ==> new_pos@[k] == a@[k] << (tile_pos as u64),
                decreases 4 - i,
            {
                new_pos[i] = a[i] << tile_pos;
                i = i + 1;
            }
        }
        let ghost m = move_piece(s, input);
        let ghost cand = new_pos@;
        proof {
            assert(cand =~= (if left {
                Seq::new(4, |k: int| s.curr_pos[k] >> 1u64)
            } else if right {
                Seq::new(4, |k: int| s.curr_pos[k] << 1u64)
            } else if up {
                placed(s.shape@[rot_up(s.rot)], s.tile_pos)
            } else if down {
                placed(s.shape@[rot_down(s.rot)], s.tile_pos)
            } else {
                s.new_pos
            }));
        }
        let mut i: usize = 0;
        while i < 4
            invariant
                i <= 4,
                new_pos@ == if exists|j: int| 0 <= j < i && #[trigger] board@[j + r] & cand[j] != 0 {
                    s.curr_pos
                } else {
                    cand
                },
            decreases 4 - i,
        {
            if (board[i + r] & new_pos[i]) != 0 {
                new_pos = curr_pos;
            }
            proof {
                if exists|j: int| 0 <= j < i + 1 && #[trigger] board@[j + r] & cand[j] != 0 {
                    if !(exists|j: int| 0 <= j < i && #[trigger] board@[j + r] & cand[j] != 0) {
                        let j = choose|j: int| 0 <= j < i + 1 && #[trigger] board@[j + r] & cand[j] != 0;
                        assert(j == i);
                    }
                } else {
                    assert(!(board@[i + r] & cand[i as int] != 0));
                }
            }
            i = i + 1;
        }
        self.curr_board = board;
        self.tile_pos = tile_pos;
        self.rot = rot;
        self.a = a;
        self.new_pos = new_pos;
        proof {
            assert(self.model() == m);
        }
    }

    /// Draws the piece and the walls and drops the piece a row (see `place`).
    #[verifier::loop_isolation(false)]
    fn place(&mut self)
        requires
            old(self).n < 4,
            1 <= old(self).r <= 40,
            old(self).rot < 4,
            old(self).rand < 81,
        ensures
            final(self).model() == place(old(self).model()),
            final(self).wf(),
    {
        let ghost s = self.model();
        let pos = self.new_pos;
        let n = find_bottom(&pos);
        let r = self.r;
        let mut board = self.curr_board;
        let mut i: usize = 0;
        while i < 4
            invariant
                i <= 4,
                board@.len() == HEIGHT,
                forall|k: int| 0 <= k < HEIGHT ==> #[trigger] board@[k] == if r <= k < r + i {
                    s.new_pos[k - r] | s.board[k]
                } else {
                    s.board[k]
                },
            decreases 4 - i,
        {
            board[i + r] = pos[i] | board[i + r];
            i = i + 1;
        }
        let ghost drawn = board@;
        let mut i: usize = 0;
        while i < HEIGHT
            invariant
                i <= HEIGHT,
                board@.len() == HEIGHT,
                forall|k: int| 0 <= k < HEIGHT ==> #[trigger] board@[k] == if k < i {
                    drawn[k] | s.base[k]
                } else {
                    drawn[k]
                },
            decreases HEIGHT - i,
        {
            board[i] = board[i] | self.base_board[i];
            i = i + 1;
        }
        self.curr_pos = pos;
        self.n = n;
        self.curr_board = board;
        if self.r < 40 {
            self.r = self.r + 1;
        }
        proof {
            assert(self.curr_board@ =~= place(s).board);
            assert(self.model() == place(s));
        }
    }
}

/// Every step keeps the walls on the board: each bit of the empty board is
/// set in the board after the step (the walls are drawn over the board, or
/// the board fills up when the game ends).
pub proof fn walls_stay_drawn(s: TetrisModel, input: u32, shapes: Shapes)
    requires
        s.board.len() == HEIGHT,
        s.base.len() == HEIGHT,
    ensures
        tetris_step(s, input, shapes).base == s.base,
        tetris_step(s, input, shapes).board.len() == HEIGHT,
        forall|k: int| 0 <= k < HEIGHT ==> #[trigger] tetris_step(s, input, shapes).board[k]
            & s.base[k] == s.base[k],
{
    let t = tetris_step(s, input, shapes);
    crate::tetris::lemma_kept_rows(s.board.subrange(8, 40));
    assert forall|k: int| 0 <= k < HEIGHT implies #[trigger] t.board[k] & s.base[k] == s.base[k] by {
        let b = s.base[k];
        let x = t.board[k];
        assert(u64::MAX & b == b) by (bit_vector);
        if !(first_hit(s) && s.r == game_over_row(s)) && !(second_hit(s) && s.r == game_over_row(s)) {
            assert(forall|z: u64| (z | b) & b == b) by (bit_vector);
        }
    }
}

/// The board row `k` with the piece's current rows (drawn from row `r - 1`)
/// taken out, as the step sees it before moving the piece.
pub open spec fn without_piece(g: Tetris, k: int) -> u64 {
    if g.r - 1 <= k < g.r + 3 {
        !g.curr_pos@[k - g.r + 1] & g.curr_board@[k]
    } else {
        g.curr_board@[k]
    }
}

/// The step moves the falling piece: no piece is due to spawn and neither
/// collision check below the piece fires.
pub open spec fn step_moves_piece(g: Tetris) -> bool {
    &&& !g.new_tile
    &&& g.curr_board@[g.r + g.n] & g.curr_pos@[g.n as int] == 0
    &&& (!g.curr_pos@[g.n as int] & g.curr_board@[g.r + g.n - 1]) & g.curr_pos@[g.n - 1] == 0
}

/// Rows `cand` placed from row `r` meet a filled cell of the board with the
/// piece taken out.
pub open spec fn blocked(g: Tetris, cand: Seq<u64>) -> bool {
    exists|i: int| 0 <= i < 4 && #[trigger] cand[i] & without_piece(g, g.r + i) != 0
}

/// Rotating forwards: only the UP flag moves the piece to the next rotation
/// (`rot + 1` modulo 4) of its shape, at the same shift; when the rotated rows
/// would cover a filled cell the piece keeps its rows, otherwise it takes
/// the rotated rows. Either way the piece is then drawn on the board.
pub proof fn rotating_forwards(g: Tetris, input: u32, shapes: Shapes)
    requires
        g.wf(),
        g.n >= 1,
        step_moves_piece(g),
        input & LEFT == 0,
        input & RIGHT == 0,
        input & UP != 0,
    ensures
        ({
            let t = tetris_step(g.model(), input, shapes);
            let rot = (g.rot + 1) % 4;
            let cand = Seq::new(4, |i: int| g.shape@[rot]@[i] << (g.tile_pos as u64));
            &&& t.rot == rot
            &&& t.a == g.shape@[rot]
            &&& t.tile_pos == g.tile_pos
            &&& blocked(g, cand) ==> t.curr_pos == g.curr_pos@
            &&& !blocked(g, cand) ==> t.curr_pos == cand
            &&& forall|i: int| 0 <= i < 4 ==> #[trigger] t.board[g.r + i] & t.curr_pos[i] == t.curr_pos[i]
        }),
{
    lemma_step_draws_piece(g, input, shapes);
    lemma_lifted_is_without_piece(g);
    let rot = (g.rot + 1) % 4;
    let cand = Seq::new(4, |i: int| g.shape@[rot]@[i] << (g.tile_pos as u64));
    assert(placed(g.shape@[rot_up(g.rot as int)], g.tile_pos as int) =~= cand);
}

/// Rotating backwards: only the DOWN flag moves the piece to the previous
/// rotation (`rot + 3` modulo 4) of its shape, the inverse of rotating
/// forwards; a rotation onto a filled cell is undone.
pub proof fn rotating_backwards(g: Tetris, input: u32, shapes: Shapes)
    requires
        g.wf(),
        g.n >= 1,
        step_moves_piece(g),
        input & LEFT == 0,
        input & RIGHT == 0,
        input & UP == 0,
        input & DOWN != 0,
    ensures
        ({
            let t = tetris_step(g.model(), input, shapes);
            let rot = (g.rot + 3) % 4;
            let cand = Seq::new(4, |i: int| g.shape@[rot]@[i] << (g.tile_pos as u64));
            &&& t.rot == rot
            &&& t.a == g.shape@[rot]
            &&& t.tile_pos == g.tile_pos
            &&& blocked(g, cand) ==> t.curr_pos == g.curr_pos@
            &&& !blocked(g, cand) ==> t.curr_pos == cand
            &&& forall|i: int| 0 <= i < 4 ==> #[trigger] t.board[g.r + i] & t.curr_pos[i] == t.curr_pos[i]
        }),
{
    lemma_step_draws_piece(g, input, shapes);
    lemma_lifted_is_without_piece(g);
    let rot = (g.rot + 3) % 4;
    let cand = Seq::new(4, |i: int| g.shape@[rot]@[i] << (g.tile_pos as u64));
    assert(placed(g.shape@[rot_down(g.rot as int)], g.tile_pos as int) =~= cand);
}

/// Moving left: the LEFT flag shifts every row of the piece right by one bit
/// and lowers the shift by one; a move onto a filled cell is undone.
pub proof fn moving_left(g: Tetris, input: u32, shapes: Shapes)
    requires
        g.wf(),
        g.n >= 1,
        step_moves_piece(g),
        input & LEFT != 0,
    ensures
        ({
            let t = tetris_step(g.model(), input, shapes);
            let cand = Seq::new(4, |i: int| g.curr_pos@[i] >> 1u64);
            &&& t.rot == g.rot
            &&& t.a == g.a
            &&& t.tile_pos == g.tile_pos - 1
            &&& blocked(g, cand) ==> t.curr_pos == g.curr_pos@
            &&& !blocked(g, cand) ==> t.curr_pos == cand
            &&& forall|i: int| 0 <= i < 4 ==> #[trigger] t.board[g.r + i] & t.curr_pos[i] == t.curr_pos[i]
        }),
{
    lemma_step_draws_piece(g, input, shapes);
    lemma_lifted_is_without_piece(g);
}

/// Moving right: the RIGHT flag (without LEFT) shifts every row of the piece
/// left by one bit and raises the shift by one; a move onto a filled cell is
/// undone.
pub proof fn moving_right(g: Tetris, input: u32, shapes: Shapes)
    requires
        g.wf(),
        g.n >= 1,
        step_moves_piece(g),
        input & LEFT == 0,
        input & RIGHT != 0,
    ensures
        ({
            let t = tetris_step(g.model(), input, shapes);
            let cand = Seq::new(4, |i: int| g.curr_pos@[i] << 1u64);
            &&& t.rot == g.rot
            &&& t.a == g.a
            &&& t.tile_pos == g.tile_pos + 1
            &&& blocked(g, cand) ==> t.curr_pos == g.curr_pos@
            &&& !blocked(g, cand) ==> t.curr_pos == cand
            &&& forall|i: int| 0 <= i < 4 ==> #[trigger] t.board[g.r + i] & t.curr_pos[i] == t.curr_pos[i]
        }),
{
    lemma_step_draws_piece(g, input, shapes);
    lemma_lifted_is_without_piece(g);
}

/// With no flag the piece keeps its next rows, unless they meet a filled cell.
pub proof fn falling_without_input(g: Tetris, input: u32, shapes: Shapes)
    requires
        g.wf(),
        g.n >= 1,
        step_moves_piece(g),
        input & (LEFT | RIGHT | UP | DOWN) == 0,
    ensures
        ({
            let t = tetris_step(g.model(), input, shapes);
            &&& t.rot == g.rot
            &&& t.a == g.a
            &&& t.tile_pos == g.tile_pos
            &&& blocked(g, g.new_pos@) ==> t.curr_pos == g.curr_pos@
            &&& !blocked(g, g.new_pos@) ==> t.curr_pos == g.new_pos@
        }),
{
    assert(input & (LEFT | RIGHT | UP | DOWN) == 0 ==> input & LEFT == 0 && input & RIGHT == 0
        && input & UP == 0 && input & DOWN == 0) by (bit_vector);
    lemma_lifted_is_without_piece(g);
}

/// The lifted board of the step is the board without the piece, and a moving
/// step's collision test is `blocked`.
proof fn lemma_lifted_is_without_piece(g: Tetris)
    requires
        g.wf(),
    ensures
        forall|k: int| 0 <= k < HEIGHT ==> #[trigger] lifted(g.curr_board@, g.curr_pos@, g.r as int)[k]
            == without_piece(g, k),
        forall|cand: Seq<u64>| #[trigger] collides(lifted(g.curr_board@, g.curr_pos@, g.r as int), cand, g.r as int)
            == blocked(g, cand),
{
    assert forall|cand: Seq<u64>| #[trigger] collides(lifted(g.curr_board@, g.curr_pos@, g.r as int), cand, g.r as int)
        == blocked(g, cand) by {
        let l = lifted(g.curr_board@, g.curr_pos@, g.r as int);
        if collides(l, cand, g.r as int) {
            let i = choose|i: int| 0 <= i < 4 && #[trigger] l[i + g.r] & cand[i] != 0;
            assert(l[i + g.r] == without_piece(g, g.r + i));
            assert(cand[i] & without_piece(g, g.r + i) == l[i + g.r] & cand[i]) by {
                let x = l[i + g.r];
                let y = cand[i];
                assert(y & x == x & y) by (bit_vector);
            }
        }
        if blocked(g, cand) {
            let i = choose|i: int| 0 <= i < 4 && #[trigger] cand[i] & without_piece(g, g.r + i) != 0;
            assert(l[i + g.r] == without_piece(g, g.r + i));
            let x = l[i + g.r];
            let y = cand[i];
            assert(y & x == x & y) by (bit_vector);
            assert(l[i + g.r] & cand[i] != 0);
        }
    }
}

/// A moving step draws the piece: each of its rows is set in the board row
/// it lands on.
proof fn lemma_step_draws_piece(g: Tetris, input: u32, shapes: Shapes)
    requires
        g.wf(),
        g.n >= 1,
        step_moves_piece(g),
    ensures
        forall|i: int| 0 <= i < 4 ==> #[trigger] tetris_step(g.model(), input, shapes).board[g.r + i]
            & tetris_step(g.model(), input, shapes).curr_pos[i] == tetris_step(
            g.model(),
            input,
            shapes,
        ).curr_pos[i],
{
    let t = tetris_step(g.model(), input, shapes);
    assert forall|i: int| 0 <= i < 4 implies #[trigger] t.board[g.r + i] & t.curr_pos[i]
        == t.curr_pos[i] by {
        let p = t.curr_pos[i];
        let m = move_piece(g.model(), input);
        let b = m.board[g.r + i];
        let c = m.base[g.r + i];
        assert(((p | b) | c) & p == p) by (bit_vector);
    }
}

/// Spawning picks the piece at random: when a piece is due and the game goes
/// on, the first random step `r1 = (690697 * rand + 1) % 81` picks the shape
/// `shapes[r1 % 7]`, the second `r2 = (690697 * r1 + 1) % 81` picks its
/// rotation `r2 % 4`, and the piece enters at shift 30.
pub proof fn spawning_picks_a_random_piece(g: Tetris, input: u32, shapes: Shapes)
    requires
        g.wf(),
        g.new_tile,
        g.r != TOP - top_row(g.a@) + 2,
    ensures
        ({
            let t = tetris_step(g.model(), input, shapes);
            let r1 = (690697 * g.rand + 1) % 81;
            let r2 = (690697 * r1 + 1) % 81;
            let shape = shapes@[r1 % 7];
            let a = shape@[r2 % 4];
            &&& t.rand == r2
            &&& t.shape == shape
            &&& t.rot == r2 % 4
            &&& t.a == a
            &&& t.tile_pos == 30
            &&& !t.new_tile
            &&& forall|i: int| 0 <= i < 4 ==> #[trigger] t.curr_pos[i] == a@[i] << 30u64
            &&& t.r == TOP - top_row(a@) + 2
            &&& forall|k: int| 12 <= k < HEIGHT ==> #[trigger] t.board[k] == cleared(
                g.curr_board@,
            )[k] | g.base_board@[k]
        }),
{
    crate::tetris::lemma_kept_rows(g.curr_board@.subrange(8, 40));
}

/// A collision right below the piece while it is still at its spawn row
/// ends the game: the board fills up and nothing else changes (the second
/// check may first mark a piece as due).
pub proof fn collision_at_spawn_row_ends_the_game(g: Tetris, input: u32, shapes: Shapes)
    requires
        g.wf(),
        g.r == TOP - top_row(g.a@) + 2,
        g.curr_board@[g.r + g.n] & g.curr_pos@[g.n as int] != 0,
    ensures
        ({
            let t = tetris_step(g.model(), input, shapes);
            &&& forall|k: int| 0 <= k < HEIGHT ==> #[trigger] t.board[k] == u64::MAX
            &&& t.board.len() == HEIGHT
            &&& t.curr_pos == g.curr_pos@
            &&& t.new_pos == g.new_pos@
            &&& t.r == g.r && t.n == g.n && t.rot == g.rot && t.rand == g.rand
            &&& t.tile_pos == g.tile_pos && t.a == g.a && t.shape == g.shape
            &&& t.new_tile == g.new_tile
        }),
{
}

/// A moving step drops the piece one row (until row 40), records the index
/// of its lowest non-empty row, keeps the random state and the shape, and
/// away from the rows around the piece only draws the walls over the board.
pub proof fn moving_step_drops_the_piece(g: Tetris, input: u32, shapes: Shapes)
    requires
        g.wf(),
        g.n >= 1,
        step_moves_piece(g),
    ensures
        ({
            let t = tetris_step(g.model(), input, shapes);
            &&& t.r == if g.r < 40 { g.r + 1 } else { g.r as int }
            &&& 0 <= t.n < 4
            &&& forall|k: int| t.n < k < 4 ==> #[trigger] t.curr_pos[k] == 0
            &&& t.n > 0 ==> t.curr_pos[t.n] != 0
            &&& t.rand == g.rand && t.shape == g.shape && !t.new_tile
            &&& t.new_pos == t.curr_pos
            &&& t.base == g.base_board@
            &&& forall|k: int| 0 <= k < HEIGHT && !(g.r - 1 <= k < g.r + 4) ==> #[trigger] t.board[k]
                == g.curr_board@[k] | g.base_board@[k]
        }),
{
}

} // verus!
