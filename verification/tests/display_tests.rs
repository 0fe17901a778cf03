use chip8::display::{Display, WIDTH, HEIGHT};

#[test]
pub fn new_display_is_dark() {
    let d = Display::new();
    let buf = d.get_display_buffer();
    assert_eq!(buf.len(), WIDTH * HEIGHT);
    assert!(buf.iter().all(|&c| c == 0));
}

#[test]
pub fn draw_byte_sets_bits_most_significant_first() {
    let mut d = Display::new();
    let collided = d.draw_byte(0b1010_0001, 4, 3);
    assert!(!collided);
    let buf = d.get_display_buffer();
    let row = 3 * WIDTH;
    assert_eq!(buf[row + 4], 1);
    assert_eq!(buf[row + 5], 0);
    assert_eq!(buf[row + 6], 1);
    assert_eq!(buf[row + 7], 0);
    assert_eq!(buf[row + 8], 0);
    assert_eq!(buf[row + 9], 0);
    assert_eq!(buf[row + 10], 0);
    assert_eq!(buf[row + 11], 1);
}

#[test]
pub fn draw_byte_wraps_each_column() {
    let mut d = Display::new();
    // Starting two columns before the right edge, the last six pixels wrap
    // to the start of the same row.
    let collided = d.draw_byte(0xFF, 62, 0);
    assert!(!collided);
    let buf = d.get_display_buffer();
    assert_eq!(buf[62], 1);
    assert_eq!(buf[63], 1);
    for x in 0..6 {
        assert_eq!(buf[x], 1);
    }
    assert_eq!(buf[6], 0);
}

#[test]
pub fn double_draw_collides_and_toggles_back() {
    // Drawing the same non-zero byte twice at the same place erases the
    // pixels it set and reports the erasure.
    let mut d = Display::new();
    assert!(!d.draw_byte(0x80, 9, 7));
    assert_eq!(d.get_display_buffer()[7 * WIDTH + 9], 1);
    assert!(d.draw_byte(0x80, 9, 7));
    assert!(d.get_display_buffer().iter().all(|&c| c == 0));
}

#[test]
pub fn clear_darkens_everything() {
    let mut d = Display::new();
    d.draw_byte(0xFF, 0, 0);
    d.draw_byte(0xFF, 30, 31);
    d.clear();
    assert!(d.get_display_buffer().iter().all(|&c| c == 0));
    // Clearing an already dark screen keeps it dark.
    d.clear();
    assert!(d.get_display_buffer().iter().all(|&c| c == 0));
}

#[test]
pub fn index_from_coords_is_row_major() {
    assert_eq!(Display::get_index_from_coords(0, 0), 0);
    assert_eq!(Display::get_index_from_coords(5, 2), 2 * WIDTH + 5);
    assert_eq!(Display::get_index_from_coords(63, 31), WIDTH * HEIGHT - 1);
}
