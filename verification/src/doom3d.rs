//! Copying a frame of boolean pixels onto the screen, one half row at a time.
use vstd::prelude::*;
use crate::{HEIGHT, WIDTH};
use crate::graphics::{bit32, bit64, lemma_bit_set, lemma_row_halves, lemma_zero_has_no_bits, write_line, Screen};

verus! {

/// The 64-bit word whose bit `x` is pixel `x` of the row.
pub fn pack_row(row: &[bool; WIDTH]) -> (word: u64)
    ensures
        forall|x: u64| x < 64 ==> #[trigger] bit64(word, x) == row@[x as int],
{
    let mut word: u64 = 0;
    let mut x: usize = 0;
        proof {
            lemma_zero_has_no_bits();
        }
    while x < WIDTH
        invariant
            x <= WIDTH,
            forall|k: u64| k < x ==> #[trigger] bit64(word, k) == row@[k as int],
            forall|k: u64| x <= k < 64 ==> !#[trigger] bit64(word, k),
        decreases WIDTH - x,
    {
        if row[x] {
            let ghost before = word;
            word = word | (1u64 << x);
            assert forall|k: u64| k < 64 implies
                #[trigger] bit64(word, k) == (k == x || bit64(before, k)) by {
                lemma_bit_set(before, x as u64, k);
            }
        }
        x = x + 1;
    }
    word
}

/// Copies a frame onto the screen: each row is packed into a 64-bit word and
/// written as its low and high 32-bit halves. Afterwards every pixel of the
/// screen is the matching pixel of the frame.
pub fn update_screen(screen: &mut Screen, pixels: &[[bool; WIDTH]; HEIGHT])
    ensures
        forall|h: int, w: int| 0 <= h < HEIGHT && 0 <= w < WIDTH ==>
            final(screen).pixel(h, w) == pixels@[h]@[w],
{
    let mut y: usize = 0;
    while y < HEIGHT
        invariant
            y <= HEIGHT,
            forall|h: int, w: int| 0 <= h < y && 0 <= w < WIDTH ==>
                screen.pixel(h, w) == pixels@[h]@[w],
        decreases HEIGHT - y,
    {
        let word = pack_row(&pixels[y]);
        let ghost before = *screen;
        write_line(screen, word as u32, y, 0);
        let ghost middle = *screen;
        write_line(screen, (word >> 32) as u32, y, 1);
        assert forall|h: int, w: int| 0 <= h <= y && 0 <= w < WIDTH implies
            screen.pixel(h, w) == pixels@[h]@[w] by {
            if h < y {
                assert(middle.pixel(h, w) == before.pixel(h, w));
            } else {
                lemma_row_halves(word, w as u64);
                assert(bit64(word, w as u64) == pixels@[h]@[w]);
                if w < 32 {
                    assert(middle.pixel(h, w) == bit32(word as u32, w as u32));
                } else {
                    assert(screen.pixel(h, w) == bit32((word >> 32u64) as u32, (w - 32) as u32));
                }
            }
        }
        y = y + 1;
    }
}

} // verus!
