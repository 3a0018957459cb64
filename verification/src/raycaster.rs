//! The column drawing of the raycaster. For each screen column the ray cast
//! either hits a wall (with the wall's on-screen height and the side it was
//! hit on) or leaves the map; the column is drawn from that and from what the
//! previous column showed: a full vertical line where the wall's side changes
//! (a corner) or where a wall ends, otherwise only the top and bottom edge of
//! the wall.
use vstd::prelude::*;
use crate::{HEIGHT, WIDTH};

verus! {

/// The side of a wall that a ray hit.
#[derive(Clone, Copy, PartialEq, Eq, Structural)]
pub enum WallType {
    /// Normal on y-axis
    Horizontal,
    /// Normal on x-axis
    Vertical,
    /// No wall (looking into void)
    Void,
}

/// What a ray hit: the on-screen height of the wall and its side, or nothing.
pub type Hit = Option<(i32, WallType)>;

/// Row of the top edge of a wall of height `height`: `HEIGHT / 2 + height / 2`
/// (division rounding toward zero), at most the last row.
pub open spec fn span_top(height: int) -> int {
    let half = if height >= 0 { height / 2 } else { -((-height) / 2) };
    if 24 + half < 47 { 24 + half } else { 47 }
}

/// Row of the bottom edge of a wall of height `height`: `HEIGHT / 2 - height / 2`
/// (division rounding toward zero), at least row 0.
pub open spec fn span_bottom(height: int) -> int {
    let half = if height >= 0 { height / 2 } else { -((-height) / 2) };
    if 24 - half > 0 { 24 - half } else { 0 }
}

/// The rows of the top and bottom edge of a wall of the given height.
pub fn wall_span(height: i32) -> (span: (usize, usize))
    requires
        height >= -47,
    ensures
        span.0 == span_top(height as int),
        span.1 == span_bottom(height as int),
        span.0 < HEIGHT,
        span.1 < HEIGHT,
{
    let half: i32 = height / 2;
    let top: i32 = if (HEIGHT as i32 / 2) + half < HEIGHT as i32 - 1 {
        (HEIGHT as i32 / 2) + half
    } else {
        HEIGHT as i32 - 1
    };
    let bottom: i32 = if (HEIGHT as i32 / 2) - half > 0 {
        (HEIGHT as i32 / 2) - half
    } else {
        0
    };
    (top as usize, bottom as usize)
}

/// What the drawing remembers of the columns drawn so far, after the first
/// `n` columns: the side of the wall seen last (`Void` after a column that hit
/// nothing) and the top and bottom rows of the last wall drawn.
pub open spec fn state_after(hits: Seq<Hit>, n: nat) -> (WallType, int, int)
    decreases n,
{
    if n == 0 {
        (WallType::Void, 0, 0)
    } else {
        let s = state_after(hits, (n - 1) as nat);
        match hits[n - 1] {
            Some((h, wt)) => (wt, span_top(h as int), span_bottom(h as int)),
            None => (WallType::Void, s.1, s.2),
        }
    }
}

/// Whether pixel `y` of column `x` is lit. A column whose wall side differs
/// from the previous column's (a corner) is a vertical line from the wall's
/// bottom to its top; any other wall column shows only its top and bottom
/// edge. A column that hits nothing right after a wall is a vertical line
/// between that wall's edges; otherwise it is blank.
pub open spec fn column_pixel(hits: Seq<Hit>, x: int, y: int) -> bool {
    let s = state_after(hits, x as nat);
    match hits[x] {
        Some((h, wt)) => if wt != s.0 && x > 0 {
            span_bottom(h as int) <= y <= span_top(h as int)
        } else {
            y == span_top(h as int) || y == span_bottom(h as int)
        },
        None => s.0 != WallType::Void && s.2 <= y <= s.1,
    }
}

/// Pixel `y` of a painted column: the rows `bottom..=top` for a line, the
/// rows `top` and `bottom` alone otherwise.
pub open spec fn painted(line: bool, bottom: int, top: int, y: int) -> bool {
    if line {
        bottom <= y <= top
    } else {
        y == top || y == bottom
    }
}

/// Paints column `x`; the other columns keep their pixels.
fn paint_column(
    pixels: &mut [[bool; WIDTH]; HEIGHT],
    x: usize,
    line: bool,
    bottom: usize,
    top: usize,
)
    requires
        x < WIDTH,
    ensures
        forall|y: int| 0 <= y < HEIGHT ==> #[trigger] final(pixels)@[y]@[x as int] == painted(
            line,
            bottom as int,
            top as int,
            y,
        ),
        forall|y: int, w: int| 0 <= y < HEIGHT && 0 <= w < WIDTH && w != x ==> #[trigger] final(pixels)@[y]@[w] == old(pixels)@[y]@[w],
{
    let ghost start = *pixels;
    let mut y: usize = 0;
    while y < HEIGHT
        invariant
            y <= HEIGHT,
            x < WIDTH,
            forall|i: int| 0 <= i < y ==> #[trigger] pixels@[i]@[x as int] == painted(
                line,
                bottom as int,
                top as int,
                i,
            ),
            forall|i: int, w: int| 0 <= i < HEIGHT && 0 <= w < WIDTH && w != x ==> #[trigger] pixels@[i]@[w]
                == start@[i]@[w],
        decreases HEIGHT - y,
    {
        let v: bool = if line {
            y >= bottom && y <= top
        } else {
            y == top || y == bottom
        };
        let ghost before = *pixels;
        pixels[y][x] = v;
        assert forall|i: int, w: int| 0 <= i < HEIGHT && 0 <= w < WIDTH && w != x implies #[trigger] pixels@[i]@[w]
            == start@[i]@[w] by {
            if i != y {
                assert(pixels@[i] == before@[i]);
            }
            assert(before@[i]@[w] == start@[i]@[w]);
        }
        assert forall|i: int| 0 <= i <= y implies #[trigger] pixels@[i]@[x as int] == painted(
            line,
            bottom as int,
            top as int,
            i,
        ) by {
            if i != y {
                assert(pixels@[i] == before@[i]);
            }
        }
        y = y + 1;
    }
}

/// `pixels` is the frame drawn from `hits`: every pixel is `column_pixel`.
pub open spec fn is_frame(hits: Seq<Hit>, pixels: [[bool; WIDTH]; HEIGHT]) -> bool {
    forall|y: int, x: int| 0 <= y < HEIGHT && 0 <= x < WIDTH ==> #[trigger] pixels@[y]@[x]
        == column_pixel(hits, x, y)
}

/// Draws the columns of a frame from what the ray of each column hit: pixel
/// `(x, y)` becomes `column_pixel(hits, x, y)`.
pub fn draw_columns(hits: &[Hit; WIDTH], pixels: &mut [[bool; WIDTH]; HEIGHT])
    requires
        forall|x: int| 0 <= x < WIDTH ==> (#[trigger] hits@[x] matches Some((h, _)) ==> h >= -47),
    ensures
        is_frame(hits@, *final(pixels)),
{
    let mut last_wall_type = WallType::Void;
    let mut last_top: usize = 0;
    let mut last_bottom: usize = 0;
    let mut x_pixel: usize = 0;
    while x_pixel < WIDTH
        invariant
            x_pixel <= WIDTH,
            forall|x: int| 0 <= x < WIDTH ==> (#[trigger] hits@[x] matches Some((h, _)) ==> h >= -47),
            state_after(hits@, x_pixel as nat) == (
                last_wall_type,
                last_top as int,
                last_bottom as int,
            ),
            forall|y: int, x: int| 0 <= y < HEIGHT && 0 <= x < x_pixel ==> #[trigger] pixels@[y]@[x]
                == column_pixel(hits@, x, y),
        decreases WIDTH - x_pixel,
    {
        let ghost before = *pixels;
        let hit = hits[x_pixel];
        match hit {
            Some((height, wall_type)) => {
                let (top, bottom) = wall_span(height);
                if wall_type != last_wall_type && x_pixel > 0 {
                    // hit a wall corner, draw a vertical line
                    paint_column(pixels, x_pixel, true, bottom, top);
                } else {
                    // hit a wall, draw top and bottom only
                    paint_column(pixels, x_pixel, false, bottom, top);
                }
                last_wall_type = wall_type;
                last_top = top;
                last_bottom = bottom;
            },
            None => {
                if last_wall_type != WallType::Void {
                    // hit blank space after seeing wall, draw a vertical line
                    paint_column(pixels, x_pixel, true, last_bottom, last_top);
                } else {
                    // hit blank space, draw nothing
                    paint_column(pixels, x_pixel, true, 1, 0);
                }
                last_wall_type = WallType::Void;
            },
        }
        assert forall|y: int, x: int| 0 <= y < HEIGHT && 0 <= x <= x_pixel implies #[trigger] pixels@[y]@[x]
            == column_pixel(hits@, x, y) by {
            if x < x_pixel {
                assert(before@[y]@[x] == column_pixel(hits@, x, y));
            }
        }
        x_pixel = x_pixel + 1;
    }
}

/// The frame depends only on what the rays hit: every pixel of every column
/// is drawn, so nothing of the pixels' old contents is left.
pub proof fn frame_depends_only_on_hits(
    hits: Seq<Hit>,
    a: [[bool; WIDTH]; HEIGHT],
    b: [[bool; WIDTH]; HEIGHT],
)
    requires
        is_frame(hits, a),
        is_frame(hits, b),
    ensures
        a == b,
{
    assert forall|y: int| 0 <= y < HEIGHT implies #[trigger] a@[y] == b@[y] by {
        assert(a@[y]@ =~= b@[y]@);
    }
    assert(a@ =~= b@);
}

/// Row of the top edge of a wall of height `h`, written out: half the height
/// (rounded toward zero) above the middle row 24, at most row 47.
pub open spec fn top_edge(h: int) -> int {
    let half = if h >= 0 { h / 2 } else { -((-h) / 2) };
    if 24 + half <= 47 { 24 + half } else { 47 }
}

/// Row of the bottom edge of a wall of height `h`, written out: half the
/// height (rounded toward zero) below the middle row 24, at least row 0.
pub open spec fn bottom_edge(h: int) -> int {
    let half = if h >= 0 { h / 2 } else { -((-h) / 2) };
    if 24 - half >= 0 { 24 - half } else { 0 }
}

/// How a column is drawn. A wall seen right after a wall of the same side
/// (whatever the two heights) shows only its top and bottom edge, as does a
/// wall in the first column; a wall of another side than the previous
/// column's, or right after a column that hit nothing, is a full line from
/// its bottom edge to its top edge. A column that hits nothing right after a
/// wall is a line between that wall's edges, and one after another empty
/// column is dark.
pub proof fn columns_follow_the_walls(
    hits: Seq<Hit>,
    pixels: [[bool; WIDTH]; HEIGHT],
    x: int,
    y: int,
)
    requires
        is_frame(hits, pixels),
        0 <= x < WIDTH,
        0 <= y < HEIGHT,
    ensures
        x == 0 ==> (hits[x] matches Some((h, wt)) ==> pixels@[y]@[x] == (y == top_edge(h as int)
            || y == bottom_edge(h as int))),
        x > 0 ==> (hits[x] matches Some((h, wt)) ==> (hits[x - 1] matches Some((h2, wt2)) ==> (wt
            == wt2 ==> pixels@[y]@[x] == (y == top_edge(h as int) || y == bottom_edge(h as int))))),
        x > 0 ==> (hits[x] matches Some((h, wt)) ==> (hits[x - 1] matches Some((h2, wt2)) ==> (wt
            != wt2 ==> pixels@[y]@[x] == (bottom_edge(h as int) <= y <= top_edge(h as int))))),
        x > 0 ==> (hits[x] matches Some((h, wt)) ==> (hits[x - 1] is None && wt != WallType::Void
            ==> pixels@[y]@[x] == (bottom_edge(h as int) <= y <= top_edge(h as int)))),
        x > 0 ==> (hits[x - 1] matches Some((h2, wt2)) ==> (hits[x] is None && wt2 != WallType::Void
            ==> pixels@[y]@[x] == (bottom_edge(h2 as int) <= y <= top_edge(h2 as int)))),
        x > 0 && hits[x] is None && hits[x - 1] is None ==> !pixels@[y]@[x],
{
    assert(pixels@[y]@[x] == column_pixel(hits, x, y));
    if x > 0 {
        assert(state_after(hits, x as nat) == {
            let s = state_after(hits, (x - 1) as nat);
            match hits[x - 1] {
                Some((h, wt)) => (wt, span_top(h as int), span_bottom(h as int)),
                None => (WallType::Void, s.1, s.2),
            }
        });
    }
}

} // verus!
