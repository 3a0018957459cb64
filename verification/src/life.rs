//! Conway's game of life on the screen's 64 x 48 grid. Each row of the board
//! is a 64-bit word; bit `c` of row `r` is the cell in row `r`, column `c`.
//! Cells beyond the edge of the grid count as dead.
use vstd::prelude::*;
use crate::{HEIGHT, WIDTH};
use crate::graphics::{bit64, lemma_bit_clear, lemma_bit_set, lemma_bits_determine_word, lemma_zero_has_no_bits};

verus! {

/// Whether the cell in row `r`, column `c` is alive; cells off the grid are dead.
pub open spec fn alive(board: Seq<u64>, r: int, c: int) -> bool {
    0 <= r < board.len() && 0 <= c < WIDTH && bit64(board[r], c as u64)
}

/// 1 for a live cell, 0 for a dead one.
pub open spec fn count(b: bool) -> int {
    if b { 1 } else { 0 }
}

/// The number of live cells among the eight cells around `(r, c)`.
pub open spec fn live_neighbours(board: Seq<u64>, r: int, c: int) -> int {
    count(alive(board, r - 1, c - 1)) + count(alive(board, r - 1, c)) + count(
        alive(board, r - 1, c + 1),
    ) + count(alive(board, r, c - 1)) + count(alive(board, r, c + 1)) + count(
        alive(board, r + 1, c - 1),
    ) + count(alive(board, r + 1, c)) + count(alive(board, r + 1, c + 1))
}

/// Whether the cell `(r, c)` is alive in the next generation: a live cell
/// with two or three live neighbours survives, a dead cell with exactly three
/// live neighbours is born, and every other cell is dead.
pub open spec fn next_alive(board: Seq<u64>, r: int, c: int) -> bool {
    let n = live_neighbours(board, r, c);
    if alive(board, r, c) {
        n == 2 || n == 3
    } else {
        n == 3
    }
}

/// `next` is the generation after `board`: bit `c` of row `r` of `next` is
/// the next state of cell `(r, c)` of `board`.
pub open spec fn is_next_generation(board: Seq<u64>, next: Seq<u64>) -> bool {
    &&& next.len() == HEIGHT
    &&& forall|r: int, c: int| 0 <= r < HEIGHT && 0 <= c < WIDTH ==>
        #[trigger] bit64(next[r], c as u64) == next_alive(board, r, c)
}

/// Row `y` is row `x` read backwards: bit `k` of `y` is bit `63 - k` of `x`
/// (what `u64::reverse_bits` gives).
pub open spec fn mirrored_row(x: u64, y: u64) -> bool {
    forall|k: u64| k < 64 ==> #[trigger] bit64(y, k) == bit64(x, (63 - k) as u64)
}

/// 1 if the cell `(i, j)` is alive, else 0.
fn cell(board: &[u64; HEIGHT], i: usize, j: usize) -> (v: u64)
    requires
        i < HEIGHT,
        j < WIDTH,
    ensures
        v == count(alive(board@, i as int, j as int)),
{
    let x = board[i];
    assert((x >> (j as u64)) & 1u64 == 1u64 || (x >> (j as u64)) & 1u64 == 0u64) by (bit_vector);
    (x >> j) & 1
}

/// The number of live cells around `(r, c)`.
fn neighbours_alive(board: &[u64; HEIGHT], r: usize, c: usize) -> (n: u64)
    requires
        r < HEIGHT,
        c < WIDTH,
    ensures
        n == live_neighbours(board@, r as int, c as int),
{
    let mut n: u64 = 0;
    if r > 0 {
        if c > 0 {
            n = n + cell(board, r - 1, c - 1);
        }
        n = n + cell(board, r - 1, c);
        if c + 1 < WIDTH {
            n = n + cell(board, r - 1, c + 1);
        }
    }
    if c > 0 {
        n = n + cell(board, r, c - 1);
    }
    if c + 1 < WIDTH {
        n = n + cell(board, r, c + 1);
    }
    if r + 1 < HEIGHT {
        if c > 0 {
            n = n + cell(board, r + 1, c - 1);
        }
        n = n + cell(board, r + 1, c);
        if c + 1 < WIDTH {
            n = n + cell(board, r + 1, c + 1);
        }
    }
    n
}

/// Computes the next generation of the board.
pub fn update_board(board: &[u64; HEIGHT]) -> (board_next: [u64; HEIGHT])
    ensures
        is_next_generation(board@, board_next@),
{
    let mut board_next: [u64; HEIGHT] = [0u64; 48];
    let mut r: usize = 0;
    while r < HEIGHT
        invariant
            r <= HEIGHT,
            forall|i: int, c: int| 0 <= i < r && 0 <= c < WIDTH ==>
                #[trigger] bit64(board_next@[i], c as u64) == next_alive(board@, i, c),
            forall|i: int| r <= i < HEIGHT ==> board_next@[i] == 0,
        decreases HEIGHT - r,
    {
        let mut row: u64 = 0;
        proof {
            lemma_zero_has_no_bits();
        }
        let mut c: usize = 0;
        while c < WIDTH
            invariant
                c <= WIDTH,
                r < HEIGHT,
                forall|k: u64| k < c ==> #[trigger] bit64(row, k) == next_alive(
                    board@,
                    r as int,
                    k as int,
                ),
                forall|k: u64| c <= k < 64 ==> !#[trigger] bit64(row, k),
            decreases WIDTH - c,
        {
            let cur_state = cell(board, r, c);
            let neighbors_alive = neighbours_alive(board, r, c);
            let live: bool = if cur_state == 1 {
                !(neighbors_alive < 2 || neighbors_alive > 3)
            } else {
                neighbors_alive == 3
            };
            let ghost before = row;
            if live {
                row = row | (1u64 << c);
                assert forall|k: u64| k < 64 implies #[trigger] bit64(row, k) == (k == c || bit64(
                    before,
                    k,
                )) by {
                    lemma_bit_set(before, c as u64, k);
                }
            } else {
                row = row & !(1u64 << c);
                assert forall|k: u64| k < 64 implies #[trigger] bit64(row, k) == (k != c && bit64(
                    before,
                    k,
                )) by {
                    lemma_bit_clear(before, c as u64, k);
                }
            }
            c = c + 1;
        }
        board_next[r] = row;
        r = r + 1;
    }
    board_next
}

/// A board with no live cell has no live cell in the next generation.
pub proof fn empty_board_stays_empty(board: Seq<u64>, r: int, c: int)
    requires
        forall|i: int| 0 <= i < board.len() ==> board[i] == 0,
    ensures
        !next_alive(board, r, c),
{
    lemma_zero_has_no_bits();
    assert forall|i: int, j: int| !alive(board, i, j) by {
        if 0 <= i < board.len() && 0 <= j < WIDTH {
            assert(!bit64(board[i], j as u64));
        }
    }
}

/// The next state of a cell depends only on the 3 x 3 block of cells centred
/// on it: two boards that agree there agree on the cell's next state.
pub proof fn next_state_is_local(a: Seq<u64>, b: Seq<u64>, r: int, c: int)
    requires
        forall|i: int, j: int| r - 1 <= i <= r + 1 && c - 1 <= j <= c + 1 ==> #[trigger] alive(
            a,
            i,
            j,
        ) == alive(b, i, j),
    ensures
        next_alive(a, r, c) == next_alive(b, r, c),
{
    assert(alive(a, r - 1, c - 1) == alive(b, r - 1, c - 1));
    assert(alive(a, r - 1, c) == alive(b, r - 1, c));
    assert(alive(a, r - 1, c + 1) == alive(b, r - 1, c + 1));
    assert(alive(a, r, c - 1) == alive(b, r, c - 1));
    assert(alive(a, r, c) == alive(b, r, c));
    assert(alive(a, r, c + 1) == alive(b, r, c + 1));
    assert(alive(a, r + 1, c - 1) == alive(b, r + 1, c - 1));
    assert(alive(a, r + 1, c) == alive(b, r + 1, c));
    assert(alive(a, r + 1, c + 1) == alive(b, r + 1, c + 1));
}

/// Turning the board upside down turns the next generation upside down: the
/// rule and its clipped edges are symmetric top to bottom.
pub proof fn life_commutes_with_vertical_mirror(
    a: Seq<u64>,
    b: Seq<u64>,
    next_a: Seq<u64>,
    next_b: Seq<u64>,
)
    requires
        a.len() == HEIGHT,
        b.len() == HEIGHT,
        forall|i: int| 0 <= i < HEIGHT ==> #[trigger] b[i] == a[HEIGHT - 1 - i],
        is_next_generation(a, next_a),
        is_next_generation(b, next_b),
    ensures
        forall|i: int| 0 <= i < HEIGHT ==> #[trigger] next_b[i] == next_a[HEIGHT - 1 - i],
{
    assert forall|i: int, j: int| #[trigger] alive(b, i, j) == alive(a, 47 - i, j) by {
        if 0 <= i < HEIGHT {
            assert(b[i] == a[47 - i]);
        }
    }
    assert forall|i: int| 0 <= i < HEIGHT implies #[trigger] next_b[i] == next_a[HEIGHT - 1 - i] by {
        assert forall|k: u64| k < 64 implies #[trigger] bit64(next_b[i], k) == bit64(
            next_a[HEIGHT - 1 - i],
            k,
        ) by {
            let c = k as int;
            assert(bit64(next_b[i], c as u64) == next_alive(b, i, c));
            assert(bit64(next_a[47 - i], c as u64) == next_alive(a, 47 - i, c));
            assert(alive(b, i - 1, c - 1) == alive(a, 47 - i + 1, c - 1));
            assert(alive(b, i - 1, c) == alive(a, 47 - i + 1, c));
            assert(alive(b, i - 1, c + 1) == alive(a, 47 - i + 1, c + 1));
            assert(alive(b, i, c - 1) == alive(a, 47 - i, c - 1));
            assert(alive(b, i, c) == alive(a, 47 - i, c));
            assert(alive(b, i, c + 1) == alive(a, 47 - i, c + 1));
            assert(alive(b, i + 1, c - 1) == alive(a, 47 - i - 1, c - 1));
            assert(alive(b, i + 1, c) == alive(a, 47 - i - 1, c));
            assert(alive(b, i + 1, c + 1) == alive(a, 47 - i - 1, c + 1));
        }
        lemma_bits_determine_word(next_b[i], next_a[HEIGHT - 1 - i]);
    }
}

/// Reversing every row of the board (as `u64::reverse_bits` does) reverses
/// every row of the next generation: the rule and its clipped edges are
/// symmetric left to right.
pub proof fn life_commutes_with_horizontal_mirror(
    a: Seq<u64>,
    b: Seq<u64>,
    next_a: Seq<u64>,
    next_b: Seq<u64>,
)
    requires
        a.len() == HEIGHT,
        b.len() == HEIGHT,
        forall|i: int| 0 <= i < HEIGHT ==> mirrored_row(#[trigger] a[i], b[i]),
        is_next_generation(a, next_a),
        is_next_generation(b, next_b),
    ensures
        forall|i: int| 0 <= i < HEIGHT ==> mirrored_row(#[trigger] next_a[i], next_b[i]),
{
    assert forall|i: int, j: int| #[trigger] alive(b, i, j) == alive(a, i, 63 - j) by {
        if 0 <= i < HEIGHT && 0 <= j < WIDTH {
            assert(mirrored_row(a[i], b[i]));
            assert(bit64(b[i], j as u64) == bit64(a[i], (63 - j) as u64));
        }
    }
    assert forall|i: int| 0 <= i < HEIGHT implies mirrored_row(#[trigger] next_a[i], next_b[i]) by {
        assert forall|k: u64| k < 64 implies #[trigger] bit64(next_b[i], k) == bit64(
            next_a[i],
            (63 - k) as u64,
        ) by {
            let c = k as int;
            assert(bit64(next_b[i], c as u64) == next_alive(b, i, c));
            assert(bit64(next_a[i], (63 - c) as u64) == next_alive(a, i, 63 - c));
            assert(alive(b, i - 1, c - 1) == alive(a, i - 1, 63 - c + 1));
            assert(alive(b, i - 1, c) == alive(a, i - 1, 63 - c));
            assert(alive(b, i - 1, c + 1) == alive(a, i - 1, 63 - c - 1));
            assert(alive(b, i, c - 1) == alive(a, i, 63 - c + 1));
            assert(alive(b, i, c) == alive(a, i, 63 - c));
            assert(alive(b, i, c + 1) == alive(a, i, 63 - c - 1));
            assert(alive(b, i + 1, c - 1) == alive(a, i + 1, 63 - c + 1));
            assert(alive(b, i + 1, c) == alive(a, i + 1, 63 - c));
            assert(alive(b, i + 1, c + 1) == alive(a, i + 1, 63 - c - 1));
        }
    }
}

/// The rule counted over the whole 3 x 3 block centred on the cell (the
/// cell included): the cell is alive next exactly when the block holds three
/// live cells, or four with the cell itself alive.
pub proof fn rule_by_block_count(board: Seq<u64>, r: int, c: int)
    ensures
        ({
            let block = count(alive(board, r - 1, c - 1)) + count(alive(board, r - 1, c)) + count(
                alive(board, r - 1, c + 1),
            ) + count(alive(board, r, c - 1)) + count(alive(board, r, c)) + count(
                alive(board, r, c + 1),
            ) + count(alive(board, r + 1, c - 1)) + count(alive(board, r + 1, c)) + count(
                alive(board, r + 1, c + 1),
            );
            next_alive(board, r, c) == (block == 3 || (alive(board, r, c) && block == 4))
        }),
{
}

} // verus!
