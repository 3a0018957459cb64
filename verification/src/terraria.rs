//! Rendering a block world: the world is a 10 x 10 grid of blocks of 8 x 8
//! pixels, and the screen shows the 64 x 48 pixel window around the player.
use vstd::prelude::*;
use crate::{HEIGHT, WIDTH};
use crate::graphics::{bit64, lemma_bit_set, lemma_bits_determine_word, lemma_zero_has_no_bits};

verus! {

/// Side of a block in pixels.
pub const BLOCK_SIZE: usize = 8;

/// Number of blocks along each side of the world.
pub const WORLD_BLOCKS: usize = 10;

/// Width of the world in pixels.
pub const WORLD_WIDTH: usize = 80;

/// Height of the world in pixels.
pub const WORLD_HEIGHT: usize = 80;

/// What a block of the world is made of.
#[derive(Clone, Copy, PartialEq, Eq, Structural)]
pub enum Block {
    Empty,
    Dirt,
    Stone,
}

/// The world the game starts in: dirt in the four corners, the rest empty.
pub fn start_world() -> (world: [[Block; WORLD_BLOCKS]; WORLD_BLOCKS])
    ensures
        forall|i: int, j: int| 0 <= i < WORLD_BLOCKS && 0 <= j < WORLD_BLOCKS ==>
            world@[i]@[j] == if (i == 0 || i == 9) && (j == 0 || j == 9) {
                Block::Dirt
            } else {
                Block::Empty
            },
{
    let mut world: [[Block; WORLD_BLOCKS]; WORLD_BLOCKS] = [[Block::Empty; 10]; 10];
    world[0][0] = Block::Dirt;
    world[0][9] = Block::Dirt;
    world[9][0] = Block::Dirt;
    world[9][9] = Block::Dirt;
    world
}

/// Whether the screen pixel `(x, y)` of the window whose top left corner is
/// the world pixel `(left, right)` shows a non-empty block. The world is
/// indexed by `(left + x) / BLOCK_SIZE` first.
pub open spec fn shows_block(
    world: [[Block; WORLD_BLOCKS]; WORLD_BLOCKS],
    left: int,
    right: int,
    x: int,
    y: int,
) -> bool {
    world@[(left + x) / 8]@[(right + y) / 8] != Block::Empty
}

/// `pixels` is the window whose top left corner is the world pixel
/// `(left, right)`: bit `x` of row `y` shows whether a block is there.
pub open spec fn is_view(
    world: [[Block; WORLD_BLOCKS]; WORLD_BLOCKS],
    left: int,
    right: int,
    pixels: Seq<u64>,
) -> bool {
    &&& pixels.len() == HEIGHT
    &&& forall|y: int, x: int| 0 <= y < HEIGHT && 0 <= x < WIDTH ==>
        #[trigger] bit64(pixels[y], x as u64) == shows_block(world, left, right, x, y)
}

/// Draws the window centred on the player position `ppos`: bit `x` of
/// `pixels[y]` is set exactly when the world block under that pixel is not
/// empty.
pub fn render(
    world: &[[Block; WORLD_BLOCKS]; WORLD_BLOCKS],
    ppos: (usize, usize),
    pixels: &mut [u64; HEIGHT],
)
    requires
        WIDTH / 2 <= ppos.0 <= WORLD_WIDTH - WIDTH / 2,
        HEIGHT / 2 <= ppos.1 <= WORLD_HEIGHT - HEIGHT / 2,
    ensures
        is_view(*world, ppos.0 - WIDTH / 2, ppos.1 - HEIGHT / 2, final(pixels)@),
{
    let left = ppos.0 - WIDTH / 2;
    let right = ppos.1 - HEIGHT / 2;
    let mut y: usize = 0;
    while y < HEIGHT
        invariant
            y <= HEIGHT,
            left == ppos.0 - WIDTH / 2,
            right == ppos.1 - HEIGHT / 2,
            left + WIDTH <= WORLD_WIDTH,
            right + HEIGHT <= WORLD_HEIGHT,
            forall|i: int, x: int| 0 <= i < y && 0 <= x < WIDTH ==>
                #[trigger] bit64(pixels@[i], x as u64) == shows_block(
                    *world,
                    left as int,
                    right as int,
                    x,
                    i,
                ),
        decreases HEIGHT - y,
    {
        pixels[y] = 0;
        let mut row: u64 = 0;
        proof {
            lemma_zero_has_no_bits();
        }
        let mut x: usize = 0;
        while x < WIDTH
            invariant
                x <= WIDTH,
                y < HEIGHT,
                left + WIDTH <= WORLD_WIDTH,
                right + HEIGHT <= WORLD_HEIGHT,
                forall|k: u64| k < x ==> #[trigger] bit64(row, k) == shows_block(
                    *world,
                    left as int,
                    right as int,
                    k as int,
                    y as int,
                ),
                forall|k: u64| x <= k < 64 ==> !#[trigger] bit64(row, k),
            decreases WIDTH - x,
        {
            if world[(left + x) / BLOCK_SIZE][(right + y) / BLOCK_SIZE] != Block::Empty {
                let ghost before = row;
                row = row | (1u64 << x);
                assert forall|k: u64| k < 64 implies #[trigger] bit64(row, k) == (k == x
                    || bit64(before, k)) by {
                    lemma_bit_set(before, x as u64, k);
                }
            }
            x = x + 1;
        }
        pixels[y] = row;
        y = y + 1;
    }
}

/// Moving the window one pixel right scrolls the picture one pixel left:
/// each row of the new view, without its last pixel, is the old row shifted
/// right by one.
pub proof fn view_scrolls_horizontally(
    world: [[Block; WORLD_BLOCKS]; WORLD_BLOCKS],
    left: int,
    right: int,
    view: Seq<u64>,
    moved: Seq<u64>,
)
    requires
        is_view(world, left, right, view),
        is_view(world, left + 1, right, moved),
    ensures
        forall|y: int| 0 <= y < HEIGHT ==> #[trigger] moved[y] & (u64::MAX >> 1u64) == view[y] >> 1u64,
{
    assert forall|y: int| 0 <= y < HEIGHT implies #[trigger] moved[y] & (u64::MAX >> 1u64) == view[y]
        >> 1u64 by {
        let m = moved[y];
        let v = view[y];
        assert forall|k: u64| k < 64 implies #[trigger] bit64(m & (u64::MAX >> 1u64), k) == bit64(
            v >> 1u64,
            k,
        ) by {
            assert(bit64(m & (u64::MAX >> 1u64), k) == (k < 63 && bit64(m, k))) by (bit_vector)
                requires
                    k < 64,
            ;
            assert(bit64(v >> 1u64, k) == (k < 63 && bit64(v, (k + 1) as u64))) by (bit_vector)
                requires
                    k < 64,
            ;
            if k < 63 {
                let x = k as int;
                assert(bit64(m, x as u64) == shows_block(world, left + 1, right, x, y));
                assert(bit64(v, (x + 1) as u64) == shows_block(world, left, right, x + 1, y));
                assert(left + 1 + x == left + (x + 1));
            }
        }
        lemma_bits_determine_word(m & (u64::MAX >> 1u64), v >> 1u64);
    }
}

/// Moving the window one pixel down scrolls the picture one row up: row `y`
/// of the new view is row `y + 1` of the old one.
pub proof fn view_scrolls_vertically(
    world: [[Block; WORLD_BLOCKS]; WORLD_BLOCKS],
    left: int,
    right: int,
    view: Seq<u64>,
    moved: Seq<u64>,
)
    requires
        is_view(world, left, right, view),
        is_view(world, left, right + 1, moved),
    ensures
        forall|y: int| 0 <= y < HEIGHT - 1 ==> #[trigger] moved[y] == view[y + 1],
{
    assert forall|y: int| 0 <= y < HEIGHT - 1 implies #[trigger] moved[y] == view[y + 1] by {
        assert forall|k: u64| k < 64 implies #[trigger] bit64(moved[y], k) == bit64(view[y + 1], k) by {
            let x = k as int;
            assert(bit64(moved[y], x as u64) == shows_block(world, left, right + 1, x, y));
            assert(bit64(view[y + 1], x as u64) == shows_block(world, left, right, x, y + 1));
            assert(right + 1 + y == right + (y + 1));
        }
        lemma_bits_determine_word(moved[y], view[y + 1]);
    }
}

} // verus!
