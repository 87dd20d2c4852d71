use chip8::graphics::{to_coord_u32, Display, HEIGHT, WIDTH};

fn lit_count(d: &Display) -> usize {
    let mut n = 0;
    for x in 0..WIDTH {
        for y in 0..HEIGHT {
            if d.get_pixel(x, y) {
                n += 1;
            }
        }
    }
    n
}

#[test]
fn new_display_is_dark() {
    let d = Display::new();
    assert_eq!(0, lit_count(&d));
}

#[test]
fn set_then_get_pixel() {
    let mut d = Display::new();
    d.set_pixel(10, 20, true);
    assert!(d.get_pixel(10, 20));
    assert_eq!(1, d.mem[10][20]);
    assert_eq!(1, lit_count(&d));
    d.set_pixel(10, 20, false);
    assert!(!d.get_pixel(10, 20));
    assert_eq!(0, d.mem[10][20]);
}

#[test]
fn get_pixel_only_counts_one_as_lit() {
    let mut d = Display::new();
    d.mem[3][4] = 2;
    assert!(!d.get_pixel(3, 4));
}

#[test]
fn cls_darkens_everything() {
    let mut d = Display::new();
    d.set_pixel(0, 0, true);
    d.set_pixel(63, 31, true);
    d.mem[5][5] = 7;
    d.cls();
    assert_eq!(0, lit_count(&d));
    assert_eq!(0, d.mem[5][5]);
}

#[test]
fn sprite_row_bits_map_left_to_right() {
    let mut d = Display::new();
    let hit = d.update_screen(0, 0, &[0b1010_0001]);
    assert!(!hit);
    assert!(d.get_pixel(0, 0));
    assert!(!d.get_pixel(1, 0));
    assert!(d.get_pixel(2, 0));
    assert!(d.get_pixel(7, 0));
    assert_eq!(3, lit_count(&d));
}

#[test]
fn sprite_wraps_around_edges() {
    let mut d = Display::new();
    let hit = d.update_screen(62, 31, &[0xF0, 0x80]);
    assert!(!hit);
    assert!(d.get_pixel(62, 31));
    assert!(d.get_pixel(63, 31));
    assert!(d.get_pixel(0, 31));
    assert!(d.get_pixel(1, 31));
    assert!(d.get_pixel(62, 0));
    assert_eq!(5, lit_count(&d));
}

#[test]
fn large_coordinates_wrap() {
    let mut d = Display::new();
    d.update_screen(64 * 3 + 5, 32 * 7 + 2, &[0x80]);
    assert!(d.get_pixel(5, 2));
    assert_eq!(1, lit_count(&d));
}

#[test]
fn overlapping_draw_reports_collision() {
    let mut d = Display::new();
    assert!(!d.update_screen(4, 4, &[0xFF]));
    assert!(d.update_screen(4, 4, &[0x01]));
    assert!(!d.get_pixel(11, 4));
    assert_eq!(7, lit_count(&d));
}

#[test]
fn drawing_twice_restores_screen() {
    let mut d = Display::new();
    d.set_pixel(29, 10, true);
    let sprite = [0x3C, 0x42, 0x81, 0xFF];
    let first = d.update_screen(28, 9, &sprite);
    let second = d.update_screen(28, 9, &sprite);
    assert!(first);
    assert!(second);
    assert_eq!(1, lit_count(&d));
    assert!(d.get_pixel(29, 10));
}

#[test]
fn tall_sprite_toggles_a_pixel_twice() {
    let mut d = Display::new();
    let sprite = [0x80u8; 33];
    let hit = d.update_screen(0, 0, &sprite);
    assert!(hit);
    assert!(!d.get_pixel(0, 0));
    assert_eq!(31, lit_count(&d));
}

#[test]
fn to_coord_u32_scales_and_saturates() {
    assert_eq!(0, to_coord_u32(0));
    assert_eq!(30, to_coord_u32(2));
    assert_eq!(945, to_coord_u32(63));
    assert_eq!(0, to_coord_u32(-5));
    assert_eq!(0, to_coord_u32(i32::MIN));
    assert_eq!(4294967295, to_coord_u32(286331153));
    assert_eq!(u32::MAX, to_coord_u32(286331154));
    assert_eq!(u32::MAX, to_coord_u32(i32::MAX));
}
