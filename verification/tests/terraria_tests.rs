use tdriver::terraria::{render, start_world, Block};
use tdriver::HEIGHT;

#[test]
fn start_world_corners() {
    let w = start_world();
    for i in 0..10 {
        for j in 0..10 {
            let corner = (i == 0 || i == 9) && (j == 0 || j == 9);
            assert_eq!(w[i][j] == Block::Dirt, corner);
            assert_eq!(w[i][j] == Block::Empty, !corner);
        }
    }
}

#[test]
fn centre_view_of_start_world_is_empty() {
    let w = start_world();
    let mut pixels = [u64::MAX; HEIGHT];
    render(&w, (40, 40), &mut pixels);
    assert_eq!(pixels, [0u64; HEIGHT]);
}

#[test]
fn top_left_view_shows_the_corner_block() {
    let w = start_world();
    let mut pixels = [0u64; HEIGHT];
    render(&w, (32, 24), &mut pixels);
    // window starts at world pixel (0, 0): block [0][0] covers x 0..8, y 0..8
    for y in 0..HEIGHT {
        assert_eq!(pixels[y], if y < 8 { 0xFF } else { 0 }, "row {}", y);
    }
}

#[test]
fn first_index_follows_x() {
    let mut w = [[Block::Empty; 10]; 10];
    w[3][1] = Block::Stone;
    let mut pixels = [0u64; HEIGHT];
    render(&w, (32, 24), &mut pixels);
    // world[(left + x) / 8][(right + y) / 8]: x in 24..32, y in 8..16
    for y in 0..HEIGHT {
        let expected = if (8..16).contains(&y) { 0xFFu64 << 24 } else { 0 };
        assert_eq!(pixels[y], expected, "row {}", y);
    }
}

#[test]
fn bottom_right_view() {
    let w = start_world();
    let mut pixels = [0u64; HEIGHT];
    render(&w, (48, 56), &mut pixels);
    // window starts at world pixel (16, 32); block [9][9] covers x 56..64 and y 40..48
    for y in 0..HEIGHT {
        let expected = if y >= 40 { 0xFFu64 << 56 } else { 0 };
        assert_eq!(pixels[y], expected, "row {}", y);
    }
}

#[test]
fn view_scrolls_one_pixel_per_step() {
    let mut w = start_world();
    w[2][3] = Block::Stone;
    w[5][4] = Block::Dirt;
    w[4][6] = Block::Stone;
    let mut out = [0u64; HEIGHT];
    let mut right = [0u64; HEIGHT];
    let mut down = [0u64; HEIGHT];
    render(&w, (37, 30), &mut out);
    render(&w, (38, 30), &mut right);
    render(&w, (37, 31), &mut down);
    for y in 0..HEIGHT {
        assert_eq!(right[y] & (u64::MAX >> 1), out[y] >> 1);
    }
    for y in 0..HEIGHT - 1 {
        assert_eq!(down[y], out[y + 1]);
    }
}
