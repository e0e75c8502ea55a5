use diorama::{Color, Framebuffer};

#[test]
fn new_buffer_is_zeroed() {
    let fb = Framebuffer::new(4, 3);
    assert_eq!((fb.width(), fb.height()), (4, 3));
    assert_eq!(fb.buffer, vec![0u32; 12]);
    assert_eq!(fb.background_color, 0x3377ff);
    assert_eq!(fb.current_color, 0xffffff);
}

#[test]
fn put_writes_row_major_and_ignores_outside() {
    let mut fb = Framebuffer::new(4, 3);
    fb.put(1, 2, 7);
    assert_eq!(fb.buffer[2 * 4 + 1], 7);
    fb.put(4, 0, 9);
    fb.put(0, 3, 9);
    assert_eq!(fb.buffer.iter().filter(|&&p| p != 0).count(), 1);
    assert_eq!(fb.get_pixel(1, 2), Some(7));
    assert_eq!(fb.get_pixel(4, 2), None);
    assert_eq!(fb.get_pixel(1, 3), None);
}

#[test]
fn set_pixel_packs_the_color() {
    let mut fb = Framebuffer::new(2, 2);
    fb.set_pixel(1, 1, Color::new(0x12, 0x34, 0x56));
    assert_eq!(fb.get_pixel(1, 1), Some(0x123456));
}

#[test]
fn write_row_replaces_one_row() {
    let mut fb = Framebuffer::new(3, 3);
    fb.fill(5);
    fb.write_row(1, &vec![1, 2, 3]);
    assert_eq!(fb.buffer, vec![5, 5, 5, 1, 2, 3, 5, 5, 5]);
}

#[test]
fn clear_uses_the_background() {
    let mut fb = Framebuffer::new(2, 2);
    fb.clear();
    assert_eq!(fb.buffer, vec![0x3377ff; 4]);
    fb.set_background_color(0x000011);
    fb.set_current_color(0x00ff00);
    fb.clear();
    assert_eq!(fb.buffer, vec![0x000011; 4]);
    assert_eq!(fb.current_color, 0x00ff00);
}

#[test]
fn empty_buffer() {
    let mut fb = Framebuffer::new(0, 5);
    fb.clear();
    fb.put(0, 0, 1);
    assert!(fb.buffer.is_empty());
    assert_eq!(fb.get_pixel(0, 0), None);
}

#[test]
fn set_pixel_i32_ignores_negative_points() {
    let mut fb = Framebuffer::new(3, 2);
    fb.set_pixel_i32(-1, 0, 9);
    fb.set_pixel_i32(0, -1, 9);
    fb.set_pixel_i32(3, 0, 9);
    assert_eq!(fb.buffer, vec![0; 6]);
    fb.set_pixel_i32(2, 1, 9);
    assert_eq!(fb.get_pixel(2, 1), Some(9));
}

#[test]
fn resize_fills_with_the_background() {
    let mut fb = Framebuffer::new(2, 2);
    fb.fill(4);
    fb.set_background_color(7);
    fb.resize(3, 1);
    assert_eq!((fb.width, fb.height), (3, 1));
    assert_eq!(fb.buffer, vec![7, 7, 7]);
}

#[test]
fn thick_pixel_paints_a_clipped_square() {
    let mut fb = Framebuffer::new(4, 3);
    fb.set_thick_pixel(1, 1, 2, 5);
    assert_eq!(fb.buffer, vec![0, 0, 0, 0, 0, 5, 5, 0, 0, 5, 5, 0]);
    let mut fb = Framebuffer::new(4, 3);
    fb.set_thick_pixel(3, 2, 10, 8);
    assert_eq!(fb.buffer, vec![0, 0, 0, 0, 0, 0, 0, 0, 0, 0, 0, 8]);
    fb.set_thick_pixel(4, 0, 3, 1);
    fb.set_thick_pixel(0, 0, 0, 1);
    assert_eq!(fb.buffer.iter().filter(|&&p| p == 1).count(), 0);
}
