use diorama::{box_blur, Color, BLOOM_RADIUS};

fn gray(v: u8) -> Color {
    Color::new(v, v, v)
}

#[test]
fn single_pixel_blurs_to_itself() {
    assert_eq!(box_blur(&vec![Color::new(10, 20, 250)], 1, 1), vec![Color::new(10, 20, 250)]);
    assert_eq!(BLOOM_RADIUS, 5);
}

#[test]
fn edges_repeat_in_the_window() {
    // at column 0 the window holds column 0 six times, column 1 once and column 2 four times
    let out = box_blur(&vec![gray(0), gray(121), gray(242)], 3, 1);
    assert_eq!(out[0], gray(((121 + 4 * 242) * 11 / 121) as u8));
    assert_eq!(out[0], gray(99));
    // at column 2: column 0 four times, column 1 once, column 2 six times
    assert_eq!(out[2], gray(((121 + 6 * 242) / 11) as u8));
    assert_eq!(out[2], gray(143));
}

#[test]
fn uniform_image_is_unchanged() {
    let img = vec![gray(77); 30];
    assert_eq!(box_blur(&img, 6, 5), img);
}

#[test]
fn empty_image() {
    assert!(box_blur(&vec![], 0, 7).is_empty());
}
