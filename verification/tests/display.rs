use chip8::display::{Display, Point, HEIGHT, PIXEL_SIZE, WIDTH};

fn lit_pixels(d: &Display) -> Vec<(usize, usize)> {
    let mut lit = Vec::new();
    for r in 0..HEIGHT {
        for c in 0..WIDTH {
            if d.pixels[r][c] {
                lit.push((r, c));
            }
        }
    }
    lit
}

#[test]
fn new_display_is_dark() {
    let d = Display::new();
    assert!(lit_pixels(&d).is_empty());
}

#[test]
fn draw_pixel_sets_one_pixel() {
    let mut d = Display::new();
    d.draw_pixel(5, 3, true);
    assert_eq!(lit_pixels(&d), vec![(3, 5)]);
    d.draw_pixel(5, 3, false);
    assert!(lit_pixels(&d).is_empty());
}

#[test]
fn draw_pixel_off_the_grid_is_ignored() {
    let mut d = Display::new();
    d.draw_pixel(64, 0, true);
    d.draw_pixel(0, 32, true);
    d.draw_pixel(-1, 0, true);
    d.draw_pixel(0, -1, true);
    assert!(lit_pixels(&d).is_empty());
}

#[test]
fn clear_screen_darkens_every_pixel() {
    let mut d = Display::new();
    d.draw_pixel(0, 0, true);
    d.draw_pixel(63, 31, true);
    d.clear_screen();
    assert!(lit_pixels(&d).is_empty());
}

#[test]
fn sprite_bits_go_left_to_right_from_the_most_significant() {
    let mut d = Display::new();
    let hit = d.draw_sprite(&[0b1010_0001], 2, 10);
    assert!(!hit);
    assert_eq!(lit_pixels(&d), vec![(2, 10), (2, 12), (2, 17)]);
}

#[test]
fn sprite_rows_go_top_to_bottom() {
    let mut d = Display::new();
    let hit = d.draw_sprite(&[0x80, 0x40, 0x20], 0, 0);
    assert!(!hit);
    assert_eq!(lit_pixels(&d), vec![(0, 0), (1, 1), (2, 2)]);
}

#[test]
fn sprite_is_cut_at_the_right_edge_pixel_by_pixel() {
    let mut d = Display::new();
    let hit = d.draw_sprite(&[0xFF, 0xFF], 0, 60);
    assert!(!hit);
    assert_eq!(
        lit_pixels(&d),
        vec![(0, 60), (0, 61), (0, 62), (0, 63), (1, 60), (1, 61), (1, 62), (1, 63)]
    );
}

#[test]
fn sprite_is_cut_at_the_bottom_edge() {
    let mut d = Display::new();
    let hit = d.draw_sprite(&[0x80, 0x80, 0x80], 30, 0);
    assert!(!hit);
    assert_eq!(lit_pixels(&d), vec![(30, 0), (31, 0)]);
}

#[test]
fn sprite_wholly_off_the_grid_draws_nothing() {
    let mut d = Display::new();
    assert!(!d.draw_sprite(&[0xFF], 32, 0));
    assert!(!d.draw_sprite(&[0xFF], 0, 64));
    assert!(!d.draw_sprite(&[0xFF], 255, 255));
    assert!(lit_pixels(&d).is_empty());
}

#[test]
fn drawing_over_a_lit_pixel_darkens_it_and_reports_it() {
    let mut d = Display::new();
    assert!(!d.draw_sprite(&[0b1100_0000], 4, 4));
    let hit = d.draw_sprite(&[0b0110_0000], 4, 4);
    assert!(hit);
    assert_eq!(lit_pixels(&d), vec![(4, 4), (4, 6)]);
}

#[test]
fn drawing_twice_restores_the_display() {
    let mut d = Display::new();
    d.draw_pixel(5, 7, true);
    let sprite = [0xF0, 0x90, 0x90, 0x90, 0xF0];
    let first = d.draw_sprite(&sprite, 5, 5);
    assert!(first);
    assert!(!d.pixels[7][5]);
    let second = d.draw_sprite(&sprite, 5, 5);
    assert!(second);
    assert_eq!(lit_pixels(&d), vec![(7, 5)]);
}

#[test]
fn second_drawing_on_a_dark_display_reports_what_the_first_lit() {
    let mut d = Display::new();
    assert!(!d.draw_sprite(&[0x18], 0, 0));
    assert!(d.draw_sprite(&[0x18], 0, 0));
    assert!(lit_pixels(&d).is_empty());
    assert!(!d.draw_sprite(&[0x00], 0, 0));
    assert!(!d.draw_sprite(&[0x00], 0, 0));
}

#[test]
fn clear_bits_leave_pixels_alone() {
    let mut d = Display::new();
    d.draw_pixel(3, 0, true);
    let hit = d.draw_sprite(&[0x00], 0, 0);
    assert!(!hit);
    assert_eq!(lit_pixels(&d), vec![(0, 3)]);
}

#[test]
fn empty_sprite_draws_nothing() {
    let mut d = Display::new();
    assert!(!d.draw_sprite(&[], 0, 0));
    assert!(lit_pixels(&d).is_empty());
}

#[test]
fn window_origin_scales_by_the_pixel_size() {
    assert_eq!(PIXEL_SIZE, 20);
    assert_eq!(Display::window_origin(0, 0), Some(Point(0, 0)));
    assert_eq!(Display::window_origin(3, 2), Some(Point(60, 40)));
    assert_eq!(Display::window_origin(63, 31), Some(Point(1260, 620)));
}

#[test]
fn window_origin_off_the_grid_is_none() {
    assert_eq!(Display::window_origin(64, 0), None);
    assert_eq!(Display::window_origin(0, 32), None);
    assert_eq!(Display::window_origin(-1, 5), None);
    assert_eq!(Display::window_origin(5, -1), None);
}
