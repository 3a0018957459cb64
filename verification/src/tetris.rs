//! The tetris playfield. The board is `HEIGHT` rows of 64-bit words; rows 0
//! to 7 and 40 to 47 are solid walls, and in the rows between them the 16
//! middle columns (bits 24 to 39) are open and the columns beside them are
//! solid.
use vstd::prelude::*;
use vstd::arithmetic::power::pow;
use crate::HEIGHT;

verus! {

/// First row of the open playfield.
pub const FIELD_TOP: usize = 8;

/// One past the last row of the open playfield.
pub const FIELD_BOTTOM: usize = 40;

/// A playfield row with its 16 middle columns open.
pub const FIELD_ROW: u64 = 0xFFFFFF0000FFFFFF;

/// Row `i` of the empty board.
pub open spec fn empty_board_row(i: int) -> u64 {
    if FIELD_TOP <= i < FIELD_BOTTOM {
        FIELD_ROW
    } else {
        u64::MAX
    }
}

/// Builds the empty board: solid walls above and below the playfield, and
/// playfield rows open in their 16 middle columns.
pub fn create_board() -> (base_board: [u64; HEIGHT])
    ensures
        forall|i: int| 0 <= i < HEIGHT ==> base_board@[i] == empty_board_row(i),
{
    let mut base_board: [u64; HEIGHT] = [0u64; 48];
    let mut i: usize = 0;
    while i < 8
        invariant
            i <= 8,
            forall|k: int| 0 <= k < i ==> base_board@[k] == u64::MAX,
            forall|k: int| i <= k < HEIGHT ==> base_board@[k] == 0,
        decreases 8 - i,
    {
        base_board[i] = base_board[i] | u64::MAX;
        assert(0u64 | 0xFFFF_FFFF_FFFF_FFFFu64 == 0xFFFF_FFFF_FFFF_FFFFu64) by (bit_vector);
        i = i + 1;
    }
    while i < 40
        invariant
            8 <= i <= 40,
            forall|k: int| 0 <= k < 8 ==> base_board@[k] == u64::MAX,
            forall|k: int| 8 <= k < i ==> base_board@[k] == FIELD_ROW,
            forall|k: int| i <= k < HEIGHT ==> base_board@[k] == 0,
        decreases 40 - i,
    {
        base_board[i] = base_board[i] | 0xFFFFFF0000FFFFFF;
        assert(0u64 | 0xFFFFFF0000FFFFFFu64 == 0xFFFFFF0000FFFFFFu64) by (bit_vector);
        i = i + 1;
    }
    while i < 48
        invariant
            40 <= i <= 48,
            forall|k: int| 0 <= k < 8 ==> base_board@[k] == u64::MAX,
            forall|k: int| 8 <= k < 40 ==> base_board@[k] == FIELD_ROW,
            forall|k: int| 40 <= k < i ==> base_board@[k] == u64::MAX,
            forall|k: int| i <= k < HEIGHT ==> base_board@[k] == 0,
        decreases 48 - i,
    {
        base_board[i] = base_board[i] | u64::MAX;
        assert(0u64 | 0xFFFF_FFFF_FFFF_FFFFu64 == 0xFFFF_FFFF_FFFF_FFFFu64) by (bit_vector);
        i = i + 1;
    }
    base_board
}

/// The index of the lowest non-empty row of a piece, 0 when it has none.
pub open spec fn bottom_row(piece: Seq<u64>) -> int {
    if piece[3] != 0 {
        3
    } else if piece[2] != 0 {
        2
    } else if piece[1] != 0 {
        1
    } else {
        0
    }
}

/// The index of the highest non-empty row of a piece, 0 when it has none.
pub open spec fn top_row(piece: Seq<u64>) -> int {
    if piece[0] != 0 {
        0
    } else if piece[1] != 0 {
        1
    } else if piece[2] != 0 {
        2
    } else if piece[3] != 0 {
        3
    } else {
        0
    }
}

/// The index of the lowest non-empty row of a piece; 0 when the piece is empty.
pub fn find_bottom(curr_pos: &[u64; 4]) -> (bottom: usize)
    ensures
        bottom == bottom_row(curr_pos@),
        bottom < 4,
        forall|k: int| bottom < k < 4 ==> curr_pos@[k] == 0,
        curr_pos@[bottom as int] != 0 || (bottom == 0 && forall|k: int|
            0 <= k < 4 ==> curr_pos@[k] == 0),
{
    let mut i: usize = 0;
    while i < 4
        invariant
            i <= 4,
            forall|k: int| 4 - i <= k < 4 ==> curr_pos@[k] == 0,
        decreases 4 - i,
    {
        if curr_pos[3 - i] != 0 {
            return 3 - i;
        }
        i = i + 1;
    }
    return 0;
}

/// The index of the highest non-empty row of a piece; 0 when the piece is empty.
pub fn find_top(curr_pos: &[u64; 4]) -> (top: usize)
    ensures
        top == top_row(curr_pos@),
        top < 4,
        forall|k: int| 0 <= k < top ==> curr_pos@[k] == 0,
        curr_pos@[top as int] != 0 || (top == 0 && forall|k: int|
            0 <= k < 4 ==> curr_pos@[k] == 0),
{
    let mut i: usize = 0;
    while i < 4
        invariant
            i <= 4,
            forall|k: int| 0 <= k < i ==> curr_pos@[k] == 0,
        decreases 4 - i,
    {
        if curr_pos[i] != 0 {
            return i;
        }
        i = i + 1;
    }
    return 0;
}

/// `base` raised to the power `exp`.
fn usize_pow(base: usize, exp: u32) -> (r: usize)
    requires
        pow(base as int, exp as nat) <= usize::MAX,
    ensures
        r == pow(base as int, exp as nat),
{
    let mut r: usize = 1;
    let mut i: u32 = 0;
    proof {
        reveal(pow);
    }
    while i < exp
        invariant
            i <= exp,
            r == pow(base as int, i as nat),
            pow(base as int, exp as nat) <= usize::MAX,
        decreases exp - i,
    {
        proof {
            reveal(pow);
            assert(pow(base as int, (i + 1) as nat) == base * pow(base as int, i as nat));
            if base > 0 {
                vstd::arithmetic::power::lemma_pow_increases(base as nat, (i + 1) as nat, exp as nat);
            }
            let p = pow(base as int, i as nat);
            assert(r * base == base * p) by (nonlinear_arith)
                requires
                    r == p,
            ;
        }
        r = r * base;
        i = i + 1;
    }
    r
}

/// The pseudo-random step of the game: `(690697 * x + 1) % 3^4`.
pub fn get_rand(x: usize) -> (r: usize)
    requires
        690697 * x + 1 <= usize::MAX,
    ensures
        r == (690697 * x + 1) % 81,
        r < 81,
{
    assert(pow(3, 4) == 81) by {
        reveal_with_fuel(pow, 5);
    }
    let m = usize_pow(3, 4);
    (690697 * x + 1) % m
}

/// A row with every column filled.
pub open spec fn full(row: u64) -> bool {
    row == u64::MAX
}

/// The rows of `rows` that are not full, in their order.
pub open spec fn kept_rows(rows: Seq<u64>) -> Seq<u64>
    decreases rows.len(),
{
    if rows.len() == 0 {
        rows
    } else if full(rows.last()) {
        kept_rows(rows.drop_last())
    } else {
        kept_rows(rows.drop_last()).push(rows.last())
    }
}

/// `n` empty rows.
pub open spec fn empty_rows(n: nat) -> Seq<u64> {
    Seq::new(n, |i: int| 0u64)
}

/// A playfield (the rows from `FIELD_TOP` to `FIELD_BOTTOM`) with its full
/// rows removed: the other rows keep their order and sink to the bottom,
/// and empty rows fill the top.
pub open spec fn cleared_field(field: Seq<u64>) -> Seq<u64> {
    empty_rows((field.len() - kept_rows(field).len()) as nat) + kept_rows(field)
}

/// The board after clearing: the walls are unchanged and the playfield is
/// cleared of its full rows.
pub open spec fn cleared(board: Seq<u64>) -> Seq<u64> {
    board.subrange(0, FIELD_TOP as int) + cleared_field(
        board.subrange(FIELD_TOP as int, FIELD_BOTTOM as int),
    ) + board.subrange(FIELD_BOTTOM as int, board.len() as int)
}

/// Removing full rows keeps no more rows than there were, and none of them full.
pub proof fn lemma_kept_rows(rows: Seq<u64>)
    ensures
        kept_rows(rows).len() <= rows.len(),
        forall|i: int| 0 <= i < kept_rows(rows).len() ==> !full(#[trigger] kept_rows(rows)[i]),
    decreases rows.len(),
{
    if rows.len() > 0 {
        lemma_kept_rows(rows.drop_last());
    }
}

/// A sequence without full rows is its own set of kept rows.
pub proof fn lemma_kept_rows_identity(rows: Seq<u64>)
    requires
        forall|i: int| 0 <= i < rows.len() ==> !full(#[trigger] rows[i]),
    ensures
        kept_rows(rows) == rows,
    decreases rows.len(),
{
    if rows.len() > 0 {
        lemma_kept_rows_identity(rows.drop_last());
        assert(rows.drop_last().push(rows.last()) =~= rows);
    }
}

/// Removes every full row of the playfield: the rows above a full row move
/// down by one and an empty row enters at the top of the playfield, until no
/// full row is left. The walls are not touched.
pub fn clear_tiles(curr_board: &mut [u64; HEIGHT])
    ensures
        final(curr_board)@ == cleared(old(curr_board)@),
{
    let ghost orig = curr_board@;
    let ghost mut settled: bool = false;
    let mut row_index: usize = 8;
    proof {
        assert(curr_board@.subrange(8, 8) =~= empty_rows(0) + kept_rows(orig.subrange(8, 8)));
    }
    while row_index < 40
        invariant
            8 <= row_index <= 40,
            settled ==> row_index < 40,
            curr_board@.len() == HEIGHT,
            orig.len() == HEIGHT,
            forall|i: int| 0 <= i < 8 ==> curr_board@[i] == orig[i],
            forall|i: int| 40 <= i < HEIGHT ==> curr_board@[i] == orig[i],
            ({
                let e: int = if settled { row_index + 1 } else { row_index as int };
                &&& curr_board@.subrange(8, e) == empty_rows(
                    ((e - 8) - kept_rows(orig.subrange(8, e)).len()) as nat,
                ) + kept_rows(orig.subrange(8, e))
                &&& forall|i: int| e <= i < 40 ==> curr_board@[i] == orig[i]
            }),
            settled ==> !full(curr_board@[row_index as int]),
        decreases 2 * (40 - row_index) + (if settled { 0int } else { 1int }),
    {
        if curr_board[row_index] == u64::MAX {
            let ghost before = curr_board@;
            let r: usize = row_index;
            proof {
                lemma_kept_rows(orig.subrange(8, r as int));
                assert(orig.subrange(8, r as int + 1).drop_last() =~= orig.subrange(8, r as int));
            }
            let mut j: usize = r;
            while j > 8
                invariant
                    8 <= j <= r,
                    r < 40,
                    curr_board@.len() == HEIGHT,
                    before.len() == HEIGHT,
                    forall|i: int| 0 <= i <= j ==> curr_board@[i] == before[i],
                    forall|i: int| j < i <= r ==> curr_board@[i] == before[i - 1],
                    forall|i: int| r < i < HEIGHT ==> curr_board@[i] == before[i],
                decreases j,
            {
                curr_board[j] = curr_board[j - 1];
                j = j - 1;
            }
            curr_board[8] = 0;
            proof {
                let k = kept_rows(orig.subrange(8, r as int));
                let z = ((r - 8) - k.len()) as nat;
                assert(kept_rows(orig.subrange(8, r as int + 1)) == k);
                assert(before.subrange(8, r as int) == empty_rows(z) + k);
                assert(curr_board@.subrange(8, r as int + 1) =~= empty_rows(z + 1) + k) by {
                    assert forall|i: int| 8 <= i <= r implies curr_board@[i] == (empty_rows(z + 1)
                        + k)[i - 8] by {
                        if i > 8 {
                            assert(curr_board@[i] == before[i - 1]);
                            assert(before[i - 1] == before.subrange(8, r as int)[i - 9]);
                        }
                    }
                }
                if r > 8 {
                    assert(curr_board@[r as int] == before[r - 1]);
                    assert(before[r - 1] == (empty_rows(z) + k)[r - 9]);
                    if r - 9 >= z {
                        assert(k[r - 9 - z] == (empty_rows(z) + k)[r - 9]);
                    }
                }
                settled = true;
            }
        } else {
            proof {
                if !settled {
                    let r = row_index as int;
                    assert(orig.subrange(8, r + 1).drop_last() =~= orig.subrange(8, r));
                    assert(curr_board@.subrange(8, r + 1) =~= curr_board@.subrange(8, r).push(
                        curr_board@[r],
                    ));
                    assert((empty_rows(((r - 8) - kept_rows(orig.subrange(8, r)).len()) as nat)
                        + kept_rows(orig.subrange(8, r))).push(orig[r]) =~= empty_rows(
                        ((r - 8) - kept_rows(orig.subrange(8, r)).len()) as nat,
                    ) + kept_rows(orig.subrange(8, r)).push(orig[r]));
                }
                settled = false;
            }
            row_index = row_index + 1;
        }
    }
    proof {
        assert(curr_board@ =~= cleared(orig)) by {
            assert(curr_board@ =~= curr_board@.subrange(0, 8) + curr_board@.subrange(8, 40)
                + curr_board@.subrange(40, 48));
            assert(curr_board@.subrange(0, 8) =~= orig.subrange(0, 8));
            assert(curr_board@.subrange(40, 48) =~= orig.subrange(40, 48));
        }
    }
}

/// Clearing a board that was just cleared changes nothing: after clearing,
/// no full row is left in the playfield.
pub proof fn clearing_is_idempotent(board: Seq<u64>)
    requires
        board.len() == HEIGHT,
    ensures
        cleared(cleared(board)) == cleared(board),
        forall|i: int| FIELD_TOP <= i < FIELD_BOTTOM ==> !full(#[trigger] cleared(board)[i]),
{
    let field = board.subrange(8, 40);
    let c = cleared(board);
    lemma_kept_rows(field);
    let f = cleared_field(field);
    assert(f.len() == 32);
    assert forall|i: int| 0 <= i < f.len() implies !full(#[trigger] f[i]) by {
        let z = (32 - kept_rows(field).len()) as nat;
        if i >= z {
            assert(f[i] == kept_rows(field)[i - z]);
        }
    }
    assert(c.subrange(8, 40) =~= f);
    assert(c.subrange(0, 8) =~= board.subrange(0, 8));
    assert(c.subrange(40, 48) =~= board.subrange(40, 48));
    lemma_kept_rows_identity(f);
    assert(cleared_field(f) =~= f);
    assert forall|i: int| FIELD_TOP <= i < FIELD_BOTTOM implies !full(#[trigger] c[i]) by {
        assert(c[i] == f[i - 8]);
    }
    assert(cleared(c) =~= c);
}

/// Removing full rows from two pieces one after the other is removing them
/// from the whole.
pub proof fn lemma_kept_rows_append(a: Seq<u64>, b: Seq<u64>)
    ensures
        kept_rows(a + b) == kept_rows(a) + kept_rows(b),
    decreases b.len(),
{
    if b.len() == 0 {
        assert(a + b =~= a);
        assert(kept_rows(a) + kept_rows(b) =~= kept_rows(a));
    } else {
        lemma_kept_rows_append(a, b.drop_last());
        assert((a + b).drop_last() =~= a + b.drop_last());
        assert((a + b).last() == b.last());
        if full(b.last()) {
        } else {
            assert(kept_rows(a) + kept_rows(b.drop_last()).push(b.last()) =~= (kept_rows(a)
                + kept_rows(b.drop_last())).push(b.last()));
        }
    }
}

/// Rows below the lowest full row do not move: when no playfield row from
/// `k` down is full, clearing leaves rows `k` to 47 as they were.
pub proof fn rows_below_full_rows_stay(board: Seq<u64>, k: int)
    requires
        board.len() == HEIGHT,
        FIELD_TOP <= k <= FIELD_BOTTOM,
        forall|i: int| k <= i < FIELD_BOTTOM ==> !full(#[trigger] board[i]),
    ensures
        forall|i: int| k <= i < HEIGHT ==> #[trigger] cleared(board)[i] == board[i],
{
    let field = board.subrange(8, 40);
    let pre = board.subrange(8, k);
    let suf = board.subrange(k, 40);
    assert(field =~= pre + suf);
    lemma_kept_rows_append(pre, suf);
    lemma_kept_rows_identity(suf);
    lemma_kept_rows(pre);
    lemma_kept_rows(field);
    let f = cleared_field(field);
    let z = (32 - kept_rows(field).len()) as nat;
    assert forall|i: int| k <= i < HEIGHT implies #[trigger] cleared(board)[i] == board[i] by {
        if i < 40 {
            assert(cleared(board)[i] == f[i - 8]);
            assert(f[i - 8] == kept_rows(field)[i - 8 - z]);
            assert(kept_rows(field) == kept_rows(pre) + suf);
            assert(i - 8 - z == kept_rows(pre).len() + (i - k));
        }
    }
}

} // verus!
