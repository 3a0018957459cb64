//! The screen model: a grid of `HEIGHT` rows of `WIDTH` pixels, and the
//! operations that write pixel data into it.
use vstd::prelude::*;
use crate::{HEIGHT, WIDTH, WORDS};

verus! {

/// Bit `i` of a 64-bit word, counted from the least significant bit.
pub open spec fn bit64(x: u64, i: u64) -> bool {
    (x >> i) & 1u64 == 1u64
}

/// Bit `i` of a 32-bit word, counted from the least significant bit.
pub open spec fn bit32(x: u32, i: u32) -> bool {
    (x >> i) & 1u32 == 1u32
}

/// Setting bit `j` of `x` turns bit `j` on and leaves every other bit alone.
pub proof fn lemma_bit_set(x: u64, j: u64, k: u64)
    requires
        j < 64,
        k < 64,
    ensures
        bit64(x | (1u64 << j), k) == (k == j || bit64(x, k)),
{
    assert(((x | (1u64 << j)) >> k) & 1u64 == 1u64 <==> (k == j || (x >> k) & 1u64 == 1u64))
        by (bit_vector)
        requires
            j < 64,
            k < 64,
    ;
}

/// Clearing bit `j` of `x` turns bit `j` off and leaves every other bit alone.
pub proof fn lemma_bit_clear(x: u64, j: u64, k: u64)
    requires
        j < 64,
        k < 64,
    ensures
        bit64(x & !(1u64 << j), k) == (k != j && bit64(x, k)),
{
    assert(((x & !(1u64 << j)) >> k) & 1u64 == 1u64 <==> (k != j && (x >> k) & 1u64 == 1u64))
        by (bit_vector)
        requires
            j < 64,
            k < 64,
    ;
}

/// No bit of 0 is set.
pub proof fn lemma_zero_has_no_bits()
    ensures
        forall|k: u64| !#[trigger] bit64(0u64, k),
{
    assert forall|k: u64| !#[trigger] bit64(0u64, k) by {
        assert((0u64 >> k) & 1u64 == 0u64) by (bit_vector);
    }
}

/// Two words that agree on bit `n` and on every bit above it agree when
/// shifted right by `n`.
proof fn lemma_high_bits_equal(a: u64, b: u64, n: u64)
    requires
        n < 64,
        forall|k: u64| n <= k < 64 ==> #[trigger] bit64(a, k) == bit64(b, k),
    ensures
        a >> n == b >> n,
    decreases 64 - n,
{
    assert(bit64(a, n) == bit64(b, n));
    if n == 63 {
        assert(((a >> 63u64) & 1u64 == 1u64) == ((b >> 63u64) & 1u64 == 1u64) ==> a >> 63u64
            == b >> 63u64) by (bit_vector);
    } else {
        lemma_high_bits_equal(a, b, (n + 1) as u64);
        assert((n < 63 && a >> ((n + 1) as u64) == b >> ((n + 1) as u64) && ((a >> n) & 1u64
            == 1u64) == ((b >> n) & 1u64 == 1u64)) ==> a >> n == b >> n) by (bit_vector);
    }
}

/// A word is determined by its 64 bits.
pub proof fn lemma_bits_determine_word(a: u64, b: u64)
    requires
        forall|k: u64| k < 64 ==> #[trigger] bit64(a, k) == bit64(b, k),
    ensures
        a == b,
{
    lemma_high_bits_equal(a, b, 0);
    assert(a >> 0u64 == a && b >> 0u64 == b) by (bit_vector);
}

/// State of the screen: `state[h][w]` is the pixel in row `h`, column `w`.
pub struct Screen {
    state: [[bool; WIDTH]; HEIGHT],
}

impl Screen {
    /// The pixel in row `h`, column `w`.
    pub closed spec fn pixel(&self, h: int, w: int) -> bool {
        self.state@[h]@[w]
    }

    /// A screen with every pixel off.
    pub fn new() -> (s: Screen)
        ensures
            forall|h: int, w: int| 0 <= h < HEIGHT && 0 <= w < WIDTH ==> !s.pixel(h, w),
    {
        Screen { state: [[false; 64]; 48] }
    }

    /// Reads the pixel in row `h`, column `w`.
    pub fn get(&self, h: usize, w: usize) -> (b: bool)
        requires
            h < HEIGHT,
            w < WIDTH,
        ensures
            b == self.pixel(h as int, w as int),
    {
        self.state[h][w]
    }
}

/// Equivalent to write_raw except with u64 instead of [u32; 2]: pixel `w` of
/// row `h` becomes bit `w` of `pixels[h]`.
pub fn write_long(screen: &mut Screen, pixels: &[u64; HEIGHT])
    ensures
        forall|h: int, w: int| 0 <= h < HEIGHT && 0 <= w < WIDTH ==>
            final(screen).pixel(h, w) == bit64(pixels@[h], w as u64),
{
    let mut h: usize = 0;
    while h < HEIGHT
        invariant
            h <= HEIGHT,
            forall|i: int, w: int| 0 <= i < h && 0 <= w < WIDTH ==>
                screen.pixel(i, w) == bit64(pixels@[i], w as u64),
        decreases HEIGHT - h,
    {
        let mut row: [bool; WIDTH] = [false; 64];
        let mut w: usize = 0;
        while w < WIDTH
            invariant
                w <= WIDTH,
                h < HEIGHT,
                forall|i: int, x: int| 0 <= i < h && 0 <= x < WIDTH ==>
                    screen.pixel(i, x) == bit64(pixels@[i], x as u64),
                forall|j: int| 0 <= j < w ==> row@[j] == bit64(pixels@[h as int], j as u64),
            decreases WIDTH - w,
        {
            row[w] = (pixels[h] >> w) & 1 == 1;
            w = w + 1;
        }
        let ghost before = *screen;
        screen.state[h] = row;
        assert(forall|i: int| 0 <= i < h ==> screen.state@[i] == before.state@[i]);
        assert(screen.state@[h as int] == row);
        assert forall|i: int, x: int| 0 <= i <= h && 0 <= x < WIDTH implies
            screen.pixel(i, x) == bit64(pixels@[i], x as u64) by {
            if i == h {
                assert(row@[x] == bit64(pixels@[h as int], x as u64));
                assert(screen.state@[i]@[x] == row@[x]);
                assert(screen.pixel(i, x) == row@[x]);
            } else {
                assert(before.pixel(i, x) == bit64(pixels@[i], x as u64));
            }
        }
        h = h + 1;
    }
}

/// Writes a line to screen at a specified row, word is 0 for lower word and 1
/// for upper: pixel `word * 32 + x` of row `row` becomes bit `x` of `data`;
/// every other pixel keeps its value.
pub fn write_line(screen: &mut Screen, data: u32, row: usize, word: usize)
    requires
        row < HEIGHT,
        word < WORDS,
    ensures
        forall|w: int| word * 32 <= w < word * 32 + 32 ==>
            final(screen).pixel(row as int, w) == bit32(data, (w - word * 32) as u32),
        forall|h: int, w: int| 0 <= h < HEIGHT && 0 <= w < WIDTH
            && !(h == row && word * 32 <= w < word * 32 + 32) ==>
            final(screen).pixel(h, w) == old(screen).pixel(h, w),
{
    let ghost before = *screen;
    let mut line: [bool; WIDTH] = screen.state[row];
    let base: usize = word * 32;
    let mut x: usize = 0;
    while x < 32
        invariant
            x <= 32,
            base == word * 32,
            word < WORDS,
            forall|w: int| base <= w < base + x ==> line@[w] == bit32(data, (w - base) as u32),
            forall|w: int| 0 <= w < WIDTH && !(base <= w < base + x) ==>
                line@[w] == before.state@[row as int]@[w],
        decreases 32 - x,
    {
        line[base + x] = (data >> x) & 1 == 1;
        x = x + 1;
    }
    screen.state[row] = line;
    assert(screen.state@[row as int] == line);
    assert forall|h: int, w: int| 0 <= h < HEIGHT && 0 <= w < WIDTH
        && !(h == row && word * 32 <= w < word * 32 + 32) implies
        screen.pixel(h, w) == before.pixel(h, w) by {
        if h != row {
            assert(screen.state@[h] == before.state@[h]);
        }
    }
}

/// Writes a pixel array into screen as implemented in hardware: row `h` is
/// the two 32-bit words `pixels[h][0]` (pixels 0 to 31) and `pixels[h][1]`
/// (pixels 32 to 63), each read from its least significant bit.
pub fn write_raw(screen: &mut Screen, pixels: &[[u32; WORDS]; HEIGHT])
    ensures
        forall|h: int, w: int| 0 <= h < HEIGHT && 0 <= w < WIDTH ==>
            final(screen).pixel(h, w) == bit32(pixels@[h]@[w / 32], (w % 32) as u32),
{
    let mut h: usize = 0;
    while h < HEIGHT
        invariant
            h <= HEIGHT,
            forall|i: int, w: int| 0 <= i < h && 0 <= w < WIDTH ==>
                screen.pixel(i, w) == bit32(pixels@[i]@[w / 32], (w % 32) as u32),
        decreases HEIGHT - h,
    {
        let mut row: [bool; WIDTH] = [false; 64];
        let mut w: usize = 0;
        while w < WIDTH
            invariant
                w <= WIDTH,
                h < HEIGHT,
                forall|i: int, x: int| 0 <= i < h && 0 <= x < WIDTH ==>
                    screen.pixel(i, x) == bit32(pixels@[i]@[x / 32], (x % 32) as u32),
                forall|j: int| 0 <= j < w ==>
                    row@[j] == bit32(pixels@[h as int]@[j / 32], (j % 32) as u32),
            decreases WIDTH - w,
        {
            let shift: u32 = (w % 32) as u32;
            row[w] = (pixels[h][w / 32] >> shift) & 1 == 1;
            w = w + 1;
        }
        let ghost before = *screen;
        screen.state[h] = row;
        assert forall|i: int, x: int| 0 <= i <= h && 0 <= x < WIDTH implies
            screen.pixel(i, x) == bit32(pixels@[i]@[x / 32], (x % 32) as u32) by {
            if i < h {
                assert(screen.state@[i] == before.state@[i]);
                assert(before.pixel(i, x) == bit32(pixels@[i]@[x / 32], (x % 32) as u32));
            }
        }
        h = h + 1;
    }
}

/// Bit `w` of a 64-bit row is bit `w % 32` of its low word (for `w < 32`) or
/// of its high word (for `w >= 32`).
pub proof fn lemma_row_halves(x: u64, w: u64)
    requires
        w < 64,
    ensures
        w < 32 ==> bit64(x, w) == bit32(x as u32, w as u32),
        w >= 32 ==> bit64(x, w) == bit32((x >> 32u64) as u32, (w - 32) as u32),
{
    assert(w < 32 ==> ((x >> w) & 1u64 == 1u64) == (((x as u32) >> (w as u32)) & 1u32 == 1u32))
        by (bit_vector);
    assert(w >= 32 && w < 64 ==> ((x >> w) & 1u64 == 1u64)
        == ((((x >> 32u64) as u32) >> ((w - 32) as u32)) & 1u32 == 1u32)) by (bit_vector);
}

/// `write_raw` and `write_long` show the same image when each 64-bit row is
/// split into its low word (pixels 0 to 31) and its high word (pixels 32 to 63).
pub proof fn raw_and_long_agree(raw: [[u32; WORDS]; HEIGHT], long: [u64; HEIGHT])
    requires
        forall|h: int| 0 <= h < HEIGHT ==> raw@[h]@[0] == long@[h] as u32
            && raw@[h]@[1] == (long@[h] >> 32u64) as u32,
    ensures
        forall|h: int, w: int| 0 <= h < HEIGHT && 0 <= w < WIDTH ==>
            bit32(raw@[h]@[w / 32], (w % 32) as u32) == #[trigger] bit64(long@[h], w as u64),
{
    assert forall|h: int, w: int| 0 <= h < HEIGHT && 0 <= w < WIDTH implies
        bit32(raw@[h]@[w / 32], (w % 32) as u32) == #[trigger] bit64(long@[h], w as u64) by {
        lemma_row_halves(long@[h], w as u64);
    }
}

/// Number of 32-bit words of screen memory.
pub const SCREEN_WORDS: usize = 96;

/// One step of the screen sanity check: write `data` into word `word` of row
/// `row`, then refresh the screen if `update` is set.
#[derive(Clone, Copy, PartialEq, Eq, Structural)]
pub struct SanityStep {
    pub row: usize,
    pub word: usize,
    pub data: u32,
    pub update: bool,
}

/// Step `k` of the sanity check. The check walks the screen's 96 words in
/// order; for each word it lights each of its 32 bits alone, from bit 0 up,
/// refreshing the screen after each, and then blanks the word again. Word `i`
/// is word `i % 2` of row `i / 2`.
pub open spec fn sanity_step(k: int) -> SanityStep {
    let i = k / 33;
    let j = k % 33;
    SanityStep {
        row: (i / 2) as usize,
        word: (i % 2) as usize,
        data: if j < 32 { 1u32 << (j as u32) } else { 0u32 },
        update: j < 32,
    }
}

/// Total number of steps of the sanity check.
pub open spec fn sanity_len() -> int {
    96int * 33int
}

/// Sanity check to ensure all pixels in screen work by running a pixel
/// across the entire screen: the decisions of the check, one step at a time.
/// Whoever drives it performs each step on the screen.
pub struct SanityCheck {
    word: usize,
    bit: usize,
}

impl SanityCheck {
    /// The number of steps already taken.
    pub closed spec fn position(&self) -> int {
        self.word * 33 + self.bit
    }

    /// Whether the fields are in range.
    pub closed spec fn wf(&self) -> bool {
        &&& self.word <= SCREEN_WORDS
        &&& self.bit <= 32
        &&& self.word == SCREEN_WORDS ==> self.bit == 0
    }

    /// A check that has taken no step yet.
    pub fn new() -> (s: SanityCheck)
        ensures
            s.wf(),
            s.position() == 0,
    {
        SanityCheck { word: 0, bit: 0 }
    }

    /// The next step of the check, or `None` once all steps were taken.
    pub fn step(&mut self) -> (next: Option<SanityStep>)
        requires
            old(self).wf(),
        ensures
            final(self).wf(),
            0 <= old(self).position() <= sanity_len(),
            old(self).position() < sanity_len() ==> next == Some(sanity_step(old(self).position()))
                && final(self).position() == old(self).position() + 1,
            old(self).position() == sanity_len() ==> next.is_none() && final(self).position()
                == old(self).position(),
    {
        if self.word >= SCREEN_WORDS {
            return None;
        }
        let k: Ghost<int> = Ghost(self.position());
        let step = if self.bit < 32 {
            SanityStep {
                row: self.word / 2,
                word: self.word % 2,
                data: 1u32 << (self.bit as u32),
                update: true,
            }
        } else {
            SanityStep { row: self.word / 2, word: self.word % 2, data: 0, update: false }
        };
        assert(k@ / 33 == self.word && k@ % 33 == self.bit) by (nonlinear_arith)
            requires
                k@ == self.word * 33 + self.bit,
                self.bit <= 32,
        ;
        if self.bit < 32 {
            self.bit = self.bit + 1;
        } else {
            self.word = self.word + 1;
            self.bit = 0;
        }
        Some(step)
    }
}

/// The sanity check lights every pixel of the screen on its own: for each
/// row and column there is a step that writes just that pixel's bit into its
/// word and refreshes the screen.
pub proof fn sanity_check_lights_every_pixel(row: int, col: int)
    requires
        0 <= row < HEIGHT,
        0 <= col < WIDTH,
    ensures
        exists|k: int|
            0 <= k < sanity_len() && #[trigger] sanity_step(k) == (SanityStep {
                row: row as usize,
                word: (col / 32) as usize,
                data: 1u32 << ((col % 32) as u32),
                update: true,
            }),
{
    let i = 2 * row + col / 32;
    let j = col % 32;
    let k = i * 33 + j;
    assert(k / 33 == i && k % 33 == j && 0 <= k < 96 * 33) by (nonlinear_arith)
        requires
            k == i * 33 + j,
            0 <= j < 32,
            0 <= i < 96,
    ;
    assert(i / 2 == row && i % 2 == col / 32);
    assert(sanity_step(k) == (SanityStep {
        row: row as usize,
        word: (col / 32) as usize,
        data: 1u32 << ((col % 32) as u32),
        update: true,
    }));
}

} // verus!
