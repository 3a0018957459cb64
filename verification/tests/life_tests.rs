use tdriver::life::update_board;
use tdriver::HEIGHT;

fn cell(board: &[u64; HEIGHT], r: usize, c: usize) -> bool {
    (board[r] >> c) & 1 == 1
}

#[test]
fn empty_board_stays_empty() {
    assert_eq!(update_board(&[0; HEIGHT]), [0; HEIGHT]);
}

#[test]
fn block_is_still() {
    let mut board = [0u64; HEIGHT];
    board[10] = 0b11 << 20;
    board[11] = 0b11 << 20;
    assert_eq!(update_board(&board), board);
}

#[test]
fn blinker_oscillates() {
    let mut horizontal = [0u64; HEIGHT];
    horizontal[5] = 0b111 << 9;
    let mut vertical = [0u64; HEIGHT];
    vertical[4] = 1 << 10;
    vertical[5] = 1 << 10;
    vertical[6] = 1 << 10;
    assert_eq!(update_board(&horizontal), vertical);
    assert_eq!(update_board(&vertical), horizontal);
}

#[test]
fn lone_cell_dies_and_corner_edges_are_dead() {
    let mut board = [0u64; HEIGHT];
    board[0] = 1;
    assert_eq!(update_board(&board), [0; HEIGHT]);
    // three cells around the corner: the corner cell is born, no wrap-around
    let mut board = [0u64; HEIGHT];
    board[0] = 0b10;
    board[1] = 0b11;
    let next = update_board(&board);
    assert!(cell(&next, 0, 0));
    assert!(cell(&next, 0, 1));
    assert!(cell(&next, 1, 0));
    assert!(cell(&next, 1, 1));
    assert!(!cell(&next, 47, 0));
    assert!(!cell(&next, 0, 63));
}

#[test]
fn starting_pattern_first_generation() {
    let mut board = [0u64; HEIGHT];
    board[1] = 0b100000100;
    board[2] = 0b100011000;
    board[3] = 0b100001100;
    let next = update_board(&board);
    // live cells with two or three neighbours survive, births on exactly three
    let expected: [u64; 4] = [0, 0b000001000, 0b1110010000, 0b000011100];
    for r in 0..4 {
        assert_eq!(next[r], expected[r], "row {}", r);
    }
    for r in 4..HEIGHT {
        assert_eq!(next[r], 0);
    }
}

#[test]
fn glider_moves_diagonally() {
    let mut g = [0u64; HEIGHT];
    g[10] = 0b010 << 10;
    g[11] = 0b100 << 10;
    g[12] = 0b111 << 10;
    let mut b = g;
    for _ in 0..4 {
        b = update_board(&b);
    }
    let mut moved = [0u64; HEIGHT];
    for r in 0..HEIGHT - 1 {
        moved[r + 1] = g[r] << 1;
    }
    assert_eq!(b, moved);
}

#[test]
fn far_cells_do_not_matter() {
    // next state of cell (10, 10) depends only on its 3 x 3 block
    let mut a = [0u64; HEIGHT];
    a[9] = 0b111 << 9;
    let mut b = a;
    b[30] = u64::MAX;
    b[12] = 0b11111 << 8;
    assert_eq!(cell(&update_board(&a), 10, 10), cell(&update_board(&b), 10, 10));
    assert!(cell(&update_board(&a), 10, 10));
}

fn sample_board() -> [u64; HEIGHT] {
    let mut b = [0u64; HEIGHT];
    b[0] = 0b111;
    b[1] = 1 << 63 | 1 << 62;
    b[2] = 1 << 62;
    b[20] = 0x0F0F_0000_1234_0001;
    b[21] = 0x00FF_0000_4321_0003;
    b[22] = 0x0F00_0000_1111_0002;
    b[46] = 1 << 40 | 1 << 41;
    b[47] = 1 << 41 | 1 << 42 | 1;
    b
}

#[test]
fn life_is_symmetric_top_to_bottom() {
    let b = sample_board();
    let mut rev = [0u64; HEIGHT];
    for i in 0..HEIGHT {
        rev[i] = b[HEIGHT - 1 - i];
    }
    let next = update_board(&b);
    let next_rev = update_board(&rev);
    for i in 0..HEIGHT {
        assert_eq!(next_rev[i], next[HEIGHT - 1 - i]);
    }
}

#[test]
fn life_is_symmetric_left_to_right() {
    let b = sample_board();
    let mut flip = [0u64; HEIGHT];
    for i in 0..HEIGHT {
        flip[i] = b[i].reverse_bits();
    }
    let next = update_board(&b);
    let next_flip = update_board(&flip);
    for i in 0..HEIGHT {
        assert_eq!(next_flip[i], next[i].reverse_bits());
    }
}
