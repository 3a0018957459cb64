use tdriver::raycaster::{draw_columns, wall_span, Hit, WallType};
use tdriver::{HEIGHT, WIDTH};

fn column(pixels: &[[bool; WIDTH]; HEIGHT], x: usize) -> Vec<usize> {
    (0..HEIGHT).filter(|&y| pixels[y][x]).collect()
}

#[test]
fn spans() {
    assert_eq!(wall_span(0), (24, 24));
    assert_eq!(wall_span(10), (29, 19));
    assert_eq!(wall_span(11), (29, 19));
    assert_eq!(wall_span(47), (47, 1));
    assert_eq!(wall_span(48), (47, 0));
    assert_eq!(wall_span(i32::MAX), (47, 0));
    assert_eq!(wall_span(-3), (23, 25));
    assert_eq!(wall_span(-47), (1, 47));
}

#[test]
fn walls_corners_and_void() {
    let mut hits: [Hit; WIDTH] = [None; WIDTH];
    hits[0] = Some((10, WallType::Vertical));
    hits[1] = Some((10, WallType::Vertical));
    hits[2] = Some((20, WallType::Horizontal));
    hits[3] = None;
    hits[4] = None;
    hits[5] = Some((4, WallType::Horizontal));
    let mut pixels = [[true; WIDTH]; HEIGHT];
    draw_columns(&hits, &mut pixels);
    // first column: never a corner, edges only
    assert_eq!(column(&pixels, 0), vec![19, 29]);
    // same side as before: edges only
    assert_eq!(column(&pixels, 1), vec![19, 29]);
    // side changed: a full line
    assert_eq!(column(&pixels, 2), (14..=34).collect::<Vec<_>>());
    // nothing hit right after a wall: a line between that wall's edges
    assert_eq!(column(&pixels, 3), (14..=34).collect::<Vec<_>>());
    // nothing hit again: blank
    assert_eq!(column(&pixels, 4), Vec::<usize>::new());
    // a wall after the void is a corner
    assert_eq!(column(&pixels, 5), (22..=26).collect::<Vec<_>>());
    // and the void after it shows that wall's extent once more
    assert_eq!(column(&pixels, 6), (22..=26).collect::<Vec<_>>());
    for x in 7..WIDTH {
        assert_eq!(column(&pixels, x), Vec::<usize>::new());
    }
}

#[test]
fn frame_does_not_depend_on_old_pixels() {
    let mut hits: [Hit; WIDTH] = [None; WIDTH];
    for x in 0..WIDTH {
        hits[x] = match x % 5 {
            0 => None,
            1 | 2 => Some(((x % 60) as i32, WallType::Vertical)),
            _ => Some((30, WallType::Horizontal)),
        };
    }
    let mut a = [[true; WIDTH]; HEIGHT];
    let mut b = [[false; WIDTH]; HEIGHT];
    b[3][7] = true;
    draw_columns(&hits, &mut a);
    draw_columns(&hits, &mut b);
    assert_eq!(a, b);
}
