use tdriver::pong::{LineWrite, Pong};
use tdriver::HEIGHT;

fn triples(writes: &[LineWrite]) -> Vec<(usize, usize, u32)> {
    writes.iter().map(|w| (w.row, w.word, w.data)).collect()
}

#[test]
fn start_draws_both_paddles() {
    let (game, writes) = Pong::start();
    assert_eq!(game.ball_pos, (32, 24));
    assert_eq!(game.ball_vel, (3, 1));
    assert_eq!((game.p_left, game.p_right), (24, 24));
    let mut expected = Vec::new();
    for i in 19..=29 {
        expected.push((i, 0, 1));
    }
    for i in 19..=29 {
        expected.push((i, 1, 0x8000_0000));
    }
    assert_eq!(triples(&writes), expected);
    for i in 0..HEIGHT {
        let row = if (19..=29).contains(&i) { 0x8000_0000_0000_0001 } else { 0 };
        assert_eq!(game.pixels[i], row);
    }
}

#[test]
fn first_tick() {
    let (mut game, _) = Pong::start();
    let writes = game.tick();
    assert_eq!(
        triples(&writes),
        vec![
            (19, 0, 1),
            (29, 0, 0),
            (19, 1, 0x8000_0000),
            (29, 1, 0),
            (24, 1, 0x8000_0000),
            (25, 1, 0x8000_0008),
        ]
    );
    assert_eq!(game.ball_pos, (35, 25));
    assert_eq!(game.ball_vel, (3, 1));
    assert_eq!((game.p_left, game.p_right), (23, 23));
    assert_eq!(game.pixels[29], 0);
    assert_eq!(game.pixels[25], 0x8000_0008_0000_0001);
}

#[test]
fn ball_bounces_in_the_corner() {
    let (mut game, _) = Pong::start();
    game.ball_pos = (62, 47);
    game.ball_vel = (3, 1);
    game.tick();
    assert_eq!(game.ball_vel, (-3, -1));
    assert_eq!(game.ball_pos, (59, 46));
    game.ball_pos = (1, 1);
    game.ball_vel = (-3, -1);
    game.tick();
    assert_eq!(game.ball_vel, (3, 1));
    assert_eq!(game.ball_pos, (4, 2));
}

#[test]
fn ball_stays_on_screen_and_paddles_in_range() {
    let (mut game, _) = Pong::start();
    for _ in 0..2000 {
        game.tick();
        assert!(game.ball_pos.0 < 64);
        assert!(game.ball_pos.1 >= 1 && game.ball_pos.1 < 48);
        assert!(game.p_left >= 5 && game.p_left <= 42);
        assert!(game.p_right >= 5 && game.p_right <= 42);
        assert!(game.ball_vel.0 == 3 || game.ball_vel.0 == -3);
        assert!(game.ball_vel.1 == 1 || game.ball_vel.1 == -1);
    }
}

#[test]
fn ball_on_a_paddle_is_not_erased() {
    let (mut game, _) = Pong::start();
    game.ball_pos = (0, 24);
    game.ball_vel = (3, 1);
    let writes = game.tick();
    // the left paddle keeps its pixel at row 24; the ball moves on
    assert_eq!(game.pixels[24] & 1, 1);
    assert_eq!(triples(&writes)[4], (24, 0, (game.pixels[24]) as u32));
}
