use tdriver::tetris::{clear_tiles, create_board, find_bottom, find_top, get_rand, FIELD_ROW};
use tdriver::HEIGHT;

#[test]
fn board_layout() {
    let b = create_board();
    for i in 0..8 {
        assert_eq!(b[i], u64::MAX);
    }
    for i in 8..40 {
        assert_eq!(b[i], 0xFFFFFF0000FFFFFF);
        assert_eq!(b[i], FIELD_ROW);
    }
    for i in 40..HEIGHT {
        assert_eq!(b[i], u64::MAX);
    }
}

#[test]
fn bottom_and_top_of_pieces() {
    assert_eq!(find_bottom(&[0, 6, 6, 0]), 2);
    assert_eq!(find_top(&[0, 6, 6, 0]), 1);
    assert_eq!(find_bottom(&[1, 1, 1, 1]), 3);
    assert_eq!(find_top(&[1, 1, 1, 1]), 0);
    assert_eq!(find_bottom(&[0, 0, 0, 0]), 0);
    assert_eq!(find_top(&[0, 0, 0, 0]), 0);
    assert_eq!(find_bottom(&[7, 0, 0, 0]), 0);
    assert_eq!(find_top(&[0, 0, 0, 7]), 3);
}

#[test]
fn random_sequence() {
    assert_eq!(get_rand(67), (690697 * 67 + 1) % 81);
    assert_eq!(get_rand(0), 1);
    assert_eq!(get_rand(1), 690698 % 81);
    let mut x = 67;
    for _ in 0..100 {
        x = get_rand(x);
        assert!(x < 81);
    }
}

#[test]
fn fresh_board_has_nothing_to_clear() {
    let mut b = create_board();
    clear_tiles(&mut b);
    assert_eq!(b, create_board());
}

#[test]
fn full_rows_are_removed_and_rest_sinks() {
    let mut b = create_board();
    b[37] = FIELD_ROW | (1 << 30);
    b[38] = u64::MAX;
    b[39] = u64::MAX;
    b[36] = u64::MAX;
    b[35] = FIELD_ROW | (1 << 25);
    clear_tiles(&mut b);
    let mut expected = create_board();
    // the three full rows are gone; rows 35 and 37 keep their order at the bottom
    expected[39] = FIELD_ROW | (1 << 30);
    expected[38] = FIELD_ROW | (1 << 25);
    for i in 8..11 {
        expected[i] = 0;
    }
    for i in 11..38 {
        expected[i] = FIELD_ROW;
    }
    assert_eq!(b, expected);
}

#[test]
fn full_top_row_and_walls_untouched() {
    let mut b = [0u64; HEIGHT];
    b[8] = u64::MAX;
    b[0] = 5;
    b[47] = 9;
    b[9] = 3;
    clear_tiles(&mut b);
    let mut expected = [0u64; HEIGHT];
    expected[0] = 5;
    expected[47] = 9;
    expected[9] = 3;
    assert_eq!(b, expected);
}

#[test]
fn clearing_twice_changes_nothing_more() {
    let mut b = create_board();
    for i in (8..40).step_by(3) {
        b[i] = u64::MAX;
    }
    b[20] = 12345;
    clear_tiles(&mut b);
    let once = b;
    clear_tiles(&mut b);
    assert_eq!(b, once);
    assert!(once[8..40].iter().all(|&r| r != u64::MAX));
    assert_eq!(once[39], FIELD_ROW);
}

#[test]
fn whole_field_full() {
    let mut b = [u64::MAX; HEIGHT];
    clear_tiles(&mut b);
    for i in 0..HEIGHT {
        assert_eq!(b[i], if (8..40).contains(&i) { 0 } else { u64::MAX });
    }
}
