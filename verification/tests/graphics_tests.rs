use tdriver::doom3d::{pack_row, update_screen};
use tdriver::graphics::{write_line, write_long, write_raw, SanityCheck, Screen};
use tdriver::{HEIGHT, WIDTH, WORDS};

fn image(screen: &Screen) -> Vec<Vec<bool>> {
    (0..HEIGHT).map(|h| (0..WIDTH).map(|w| screen.get(h, w)).collect()).collect()
}

#[test]
fn new_screen_is_blank() {
    let screen = Screen::new();
    assert!(image(&screen).iter().all(|row| row.iter().all(|p| !p)));
}

#[test]
fn write_long_sets_bits_from_lsb() {
    let mut screen = Screen::new();
    let mut pixels = [0u64; HEIGHT];
    pixels[0] = 1;
    pixels[1] = 1 << 63;
    pixels[47] = 0xF00000000000000F;
    write_long(&mut screen, &pixels);
    assert!(screen.get(0, 0));
    assert!(!screen.get(0, 1));
    assert!(screen.get(1, 63));
    assert!(!screen.get(1, 62));
    for w in 0..WIDTH {
        assert_eq!(screen.get(47, w), w < 4 || w >= 60);
    }
    assert!(!screen.get(2, 0));
}

#[test]
fn write_raw_matches_write_long() {
    let mut long = [0u64; HEIGHT];
    let mut raw = [[0u32; WORDS]; HEIGHT];
    for h in 0..HEIGHT {
        long[h] = 0x9E37_79B9_7F4A_7C15u64.rotate_left(h as u32) ^ (h as u64);
        raw[h][0] = long[h] as u32;
        raw[h][1] = (long[h] >> 32) as u32;
    }
    let mut a = Screen::new();
    let mut b = Screen::new();
    write_long(&mut a, &long);
    write_raw(&mut b, &raw);
    assert_eq!(image(&a), image(&b));
}

#[test]
fn write_raw_word_layout() {
    let mut raw = [[0u32; WORDS]; HEIGHT];
    raw[5][1] = 0b101;
    let mut screen = Screen::new();
    write_raw(&mut screen, &raw);
    assert!(screen.get(5, 32));
    assert!(!screen.get(5, 33));
    assert!(screen.get(5, 34));
    assert!(!screen.get(5, 0));
    assert!(!screen.get(5, 2));
}

#[test]
fn write_line_touches_one_half_row() {
    let mut screen = Screen::new();
    let mut pixels = [u64::MAX; HEIGHT];
    pixels[3] = 0;
    write_long(&mut screen, &pixels);
    write_line(&mut screen, 0x8000_0001, 3, 1);
    for w in 0..32 {
        assert!(!screen.get(3, w));
    }
    assert!(screen.get(3, 32));
    assert!(screen.get(3, 63));
    for w in 33..63 {
        assert!(!screen.get(3, w));
    }
    assert!(screen.get(2, 40));
    assert!(screen.get(4, 40));
}

#[test]
fn write_line_lower_word() {
    let mut screen = Screen::new();
    write_line(&mut screen, 0xFFFF_FFFF, 0, 0);
    for w in 0..WIDTH {
        assert_eq!(screen.get(0, w), w < 32);
    }
}

#[test]
fn pack_row_bit_order() {
    let mut row = [false; WIDTH];
    row[0] = true;
    row[5] = true;
    row[63] = true;
    assert_eq!(pack_row(&row), 1 | (1 << 5) | (1 << 63));
    assert_eq!(pack_row(&[false; WIDTH]), 0);
    assert_eq!(pack_row(&[true; WIDTH]), u64::MAX);
}

#[test]
fn update_screen_copies_frame() {
    let mut frame = [[false; WIDTH]; HEIGHT];
    for h in 0..HEIGHT {
        for w in 0..WIDTH {
            frame[h][w] = (h * 7 + w * 3) % 5 == 0;
        }
    }
    let mut screen = Screen::new();
    update_screen(&mut screen, &frame);
    for h in 0..HEIGHT {
        for w in 0..WIDTH {
            assert_eq!(screen.get(h, w), frame[h][w]);
        }
    }
}

#[test]
fn sanity_check_walks_every_bit() {
    let mut check = SanityCheck::new();
    let first = check.step().unwrap();
    assert_eq!((first.row, first.word, first.data, first.update), (0, 0, 1, true));
    let mut steps = vec![first];
    while let Some(s) = check.step() {
        steps.push(s);
    }
    assert_eq!(steps.len(), 96 * 33);
    let s = steps[31];
    assert_eq!((s.row, s.word, s.data, s.update), (0, 0, 1 << 31, true));
    let s = steps[32];
    assert_eq!((s.row, s.word, s.data, s.update), (0, 0, 0, false));
    let s = steps[33];
    assert_eq!((s.row, s.word, s.data, s.update), (0, 1, 1, true));
    let s = steps[3 * 33 + 4];
    assert_eq!((s.row, s.word, s.data, s.update), (1, 1, 1 << 4, true));
    let s = steps[96 * 33 - 1];
    assert_eq!((s.row, s.word, s.data, s.update), (47, 1, 0, false));
    assert!(check.step().is_none());
}
