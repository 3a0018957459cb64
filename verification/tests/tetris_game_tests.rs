use tdriver::tetris::{create_board, get_rand, FIELD_ROW};
use tdriver::tetris_game::{Shapes, Tetris, LEFT, MIDDLE, RIGHT, UP};
use tdriver::HEIGHT;

const O: [u64; 4] = [0, 0b11, 0b11, 0];

fn o_shapes() -> Shapes {
    [[O; 4]; 7]
}

/// An L piece in four rotations, the same for every shape.
fn l_shapes() -> Shapes {
    let rots = [
        [0, 0b010, 0b010, 0b011],
        [0, 0b000, 0b111, 0b100],
        [0, 0b110, 0b010, 0b010],
        [0, 0b001, 0b111, 0b000],
    ];
    [rots; 7]
}

#[test]
fn new_game() {
    let g = Tetris::new(O);
    assert_eq!(g.curr_board, create_board());
    assert_eq!(g.base_board, create_board());
    assert!(g.new_tile);
    assert_eq!(g.a, O);
    assert_eq!((g.n, g.r, g.tile_pos, g.rot, g.rand), (2, 9, MIDDLE, 0, 67));
}

#[test]
fn first_step_spawns_a_piece() {
    let mut g = Tetris::new(O);
    assert!(g.can_tick(0));
    let frame = g.tick(0, &o_shapes());
    let mut expected = create_board();
    expected[8] = FIELD_ROW | (0b11 << 30);
    expected[9] = FIELD_ROW | (0b11 << 30);
    assert_eq!(frame, expected);
    assert_eq!(g.curr_board, expected);
    assert_eq!(g.r, 8);
    assert_eq!(g.n, 2);
    assert!(!g.new_tile);
    let rand1 = get_rand(67);
    assert_eq!(g.rand, get_rand(rand1));
    assert_eq!(g.rot, g.rand % 4);
    assert_eq!(g.curr_pos, [0, 0b11 << 30, 0b11 << 30, 0]);
}

#[test]
fn piece_falls_and_lands_then_a_new_one_spawns() {
    let shapes = o_shapes();
    let mut g = Tetris::new(O);
    g.tick(0, &shapes);
    for step in 0..30 {
        assert!(g.can_tick(0));
        let frame = g.tick(0, &shapes);
        let top = 9 + step;
        for row in 8..40 {
            let piece = row == top || row == top + 1;
            let expected = if piece { FIELD_ROW | (0b11 << 30) } else { FIELD_ROW };
            assert_eq!(frame[row], expected, "step {} row {}", step, row);
        }
    }
    assert_eq!(g.r, 38);
    // the piece rests on the floor: the next step spawns a new piece
    let frame = g.tick(0, &shapes);
    assert_eq!(frame[38], FIELD_ROW | (0b11 << 30));
    assert_eq!(frame[39], FIELD_ROW | (0b11 << 30));
    assert_eq!(frame[8], FIELD_ROW | (0b11 << 30));
    assert_eq!(frame[9], FIELD_ROW | (0b11 << 30));
    assert_eq!(g.r, 8);
}

#[test]
fn moving_left_and_right() {
    let shapes = o_shapes();
    let mut g = Tetris::new(O);
    g.tick(0, &shapes);
    let frame = g.tick(LEFT, &shapes);
    assert_eq!(frame[9], FIELD_ROW | (0b11 << 29));
    assert_eq!(frame[10], FIELD_ROW | (0b11 << 29));
    assert_eq!(frame[8], FIELD_ROW);
    assert_eq!(g.tile_pos, MIDDLE - 1);
    let frame = g.tick(RIGHT, &shapes);
    assert_eq!(frame[10], FIELD_ROW | (0b11 << 30));
    assert_eq!(frame[11], FIELD_ROW | (0b11 << 30));
    assert_eq!(g.tile_pos, MIDDLE);
}

#[test]
fn blocked_move_is_undone() {
    let shapes = o_shapes();
    let mut g = Tetris::new(O);
    g.tick(0, &shapes);
    // a filled cell just left of the piece, in the row it moves into
    g.curr_board[9] |= 1 << 29;
    g.base_board[9] |= 1 << 29;
    let frame = g.tick(LEFT, &shapes);
    assert_eq!(frame[10], FIELD_ROW | (0b11 << 30));
    assert_eq!(frame[9], FIELD_ROW | (0b11 << 30) | (1 << 29));
    // the shift is counted all the same
    assert_eq!(g.tile_pos, MIDDLE - 1);
}

#[test]
fn rotation_uses_the_next_rotation() {
    let shapes = l_shapes();
    let mut g = Tetris::new(O);
    g.tick(0, &shapes);
    let rot = g.rot;
    let frame = g.tick(UP, &shapes);
    let next = if rot != 3 { rot + 1 } else { 0 };
    assert_eq!(g.rot, next);
    assert_eq!(g.a, shapes[0][next]);
    for i in 0..4 {
        assert_eq!(g.curr_pos[i], shapes[0][next][i] << MIDDLE);
        let row = g.r - 1 + i;
        assert_eq!(frame[row], create_board()[row] | g.curr_pos[i]);
    }
}

#[test]
fn collision_at_the_spawn_row_ends_the_game() {
    let shapes = o_shapes();
    let mut g = Tetris::new(O);
    g.tick(0, &shapes);
    g.curr_board[10] |= 1 << 30;
    assert!(g.can_tick(0));
    let frame = g.tick(0, &shapes);
    assert_eq!(frame, [u64::MAX; HEIGHT]);
    // the game stays over
    let frame = g.tick(0, &shapes);
    assert_eq!(frame, [u64::MAX; HEIGHT]);
}

#[test]
fn piece_without_a_row_above_its_bottom_cannot_step() {
    let g = Tetris::new([0b1111, 0, 0, 0]);
    assert_eq!(g.n, 0);
    assert!(!g.can_tick(0));
}

#[test]
fn moving_left_at_shift_zero_cannot_step() {
    let shapes = o_shapes();
    let mut g = Tetris::new(O);
    g.tick(0, &shapes);
    g.tile_pos = 0;
    assert!(!g.can_tick(LEFT));
    assert!(g.can_tick(0));
    g.tile_pos = 64;
    assert!(!g.can_tick(UP));
}
