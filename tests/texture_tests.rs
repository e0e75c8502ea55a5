use diorama::{fit_within, Color, Texture, TextureOptions, TILE};

fn gray(v: u8) -> Color {
    Color::new(v, v, v)
}

fn opts(tile: usize, mips: bool) -> TextureOptions {
    TextureOptions { tile, generate_mips: mips, ..TextureOptions::default() }
}

fn ramp(w: usize, h: usize) -> Vec<Color> {
    (0..w * h).map(|k| gray(k as u8)).collect()
}

#[test]
fn default_options() {
    let o = TextureOptions::default();
    assert_eq!((o.max_w, o.max_h, o.tile), (512, 512, TILE));
    assert!(o.generate_mips);
    assert_eq!((o.max_mips, o.min_mip_area), (8, 64));
}

#[test]
fn stored_image_reads_back_row_major() {
    for tile in [1usize, 2, 3, 8] {
        let (w, h) = (5usize, 3usize);
        let t = Texture::from_row_major(ramp(w, h), w, h, opts(tile, false));
        assert_eq!((t.width(), t.height()), (w, h));
        for y in 0..h {
            for x in 0..w {
                assert_eq!(t.pixel_swizzled(x, y), gray((y * w + x) as u8));
            }
        }
    }
}

#[test]
fn lookups_clamp_to_edge() {
    let t = Texture::from_row_major(ramp(4, 2), 4, 2, opts(TILE, false));
    assert_eq!(t.pixel_swizzled(10, 0), gray(3));
    assert_eq!(t.pixel_swizzled(0, 10), gray(4));
    assert_eq!(t.pixel_swizzled(99, 99), gray(7));
}

#[test]
fn storage_is_tile_major() {
    let t = Texture::from_row_major(ramp(4, 4), 4, 4, opts(2, false));
    let expect: Vec<Color> =
        [0u8, 1, 4, 5, 2, 3, 6, 7, 8, 9, 12, 13, 10, 11, 14, 15].iter().map(|&v| gray(v)).collect();
    assert_eq!(t.base.data_swz, expect);
}

#[test]
fn padding_repeats_the_edge() {
    let t = Texture::from_row_major(ramp(3, 1), 3, 1, opts(2, false));
    assert_eq!((t.base.pw, t.base.ph), (4, 2));
    let expect: Vec<Color> = [0u8, 1, 0, 1, 2, 2, 2, 2].iter().map(|&v| gray(v)).collect();
    assert_eq!(t.base.data_swz, expect);
}

#[test]
fn mips_box_filter_each_level() {
    let o = TextureOptions { tile: 2, generate_mips: true, max_mips: 8, min_mip_area: 1, ..TextureOptions::default() };
    let t = Texture::from_row_major(ramp(4, 4), 4, 4, o);
    assert_eq!(t.mip_count(), 2);
    assert_eq!(t.mip_size(0), (2, 2));
    assert_eq!(t.mip_size(1), (1, 1));
    // (0+1+4+5)/4, (2+3+6+7)/4, (8+9+12+13)/4, (10+11+14+15)/4
    assert_eq!(t.pixel_swizzled_mip(0, 0, 0), gray(2));
    assert_eq!(t.pixel_swizzled_mip(0, 1, 0), gray(4));
    assert_eq!(t.pixel_swizzled_mip(0, 0, 1), gray(10));
    assert_eq!(t.pixel_swizzled_mip(0, 1, 1), gray(12));
    // (2+4+10+12)/4
    assert_eq!(t.pixel_swizzled_mip(1, 0, 0), gray(7));
}

#[test]
fn odd_sides_reuse_the_last_column() {
    let o = TextureOptions { tile: 2, generate_mips: true, max_mips: 1, min_mip_area: 1, ..TextureOptions::default() };
    let t = Texture::from_row_major(ramp(3, 2), 3, 2, o);
    assert_eq!(t.mip_count(), 1);
    assert_eq!(t.mip_size(0), (1, 1));
    // (0+1+3+4)/4
    assert_eq!(t.pixel_swizzled_mip(0, 0, 0), gray(2));
}

#[test]
fn mip_chain_stops_at_limits() {
    let w = 64usize;
    let img = vec![gray(9); w * w];
    let t = Texture::from_row_major(img.clone(), w, w, TextureOptions::default());
    // 32x32, 16x16, 8x8; 4x4 would hold fewer than 64 pixels
    assert_eq!(t.mip_count(), 3);
    assert_eq!(t.mip_size(2), (8, 8));
    let few = TextureOptions { max_mips: 2, ..TextureOptions::default() };
    assert_eq!(Texture::from_row_major(img.clone(), w, w, few).mip_count(), 2);
    let none = TextureOptions { generate_mips: false, ..TextureOptions::default() };
    assert_eq!(Texture::from_row_major(img, w, w, none).mip_count(), 0);
    let thin = Texture::from_row_major(vec![gray(1); 200], 200, 1, TextureOptions::default());
    assert_eq!(thin.mip_count(), 0);
}

#[test]
fn pick_mip_for_lod_caps_at_last_level() {
    let w = 64usize;
    let t = Texture::from_row_major(vec![gray(9); w * w], w, w, TextureOptions::default());
    assert_eq!(t.pick_mip_for_lod(0), None);
    assert_eq!(t.pick_mip_for_lod(-2), None);
    assert_eq!(t.pick_mip_for_lod(1), Some(0));
    assert_eq!(t.pick_mip_for_lod(3), Some(2));
    assert_eq!(t.pick_mip_for_lod(7), Some(2));
    let flat = Texture::from_row_major(vec![gray(9); 4], 2, 2, TextureOptions::default());
    assert_eq!(flat.pick_mip_for_lod(5), None);
}

#[test]
fn fit_within_keeps_aspect() {
    assert_eq!(fit_within(100, 50, 512, 512), (100, 50));
    assert_eq!(fit_within(1024, 512, 512, 512), (512, 256));
    assert_eq!(fit_within(300, 900, 512, 512), (170, 512));
    assert_eq!(fit_within(2000, 10, 512, 512), (512, 2));
    assert_eq!(fit_within(5000, 1, 512, 512), (512, 1));
    assert_eq!(fit_within(8, 8, 0, 0), (1, 1));
}

#[test]
fn from_rgb8_keeps_a_small_image() {
    let rgb: Vec<u8> = vec![1, 2, 3, 4, 5, 6];
    let t = Texture::from_rgb8_with(rgb, 2, 1, TextureOptions::default());
    assert_eq!((t.width(), t.height()), (2, 1));
    assert_eq!(t.pixel_swizzled(0, 0), Color::new(1, 2, 3));
    assert_eq!(t.pixel_swizzled(1, 0), Color::new(4, 5, 6));
}

#[test]
fn from_rgb8_scales_a_large_image_down() {
    let (w, h) = (8u32, 4u32);
    let rgb: Vec<u8> = [200u8, 100, 50].repeat((w * h) as usize);
    let o = TextureOptions { max_w: 4, max_h: 4, generate_mips: false, ..TextureOptions::default() };
    let t = Texture::from_rgb8_with(rgb, w, h, o);
    assert_eq!((t.width(), t.height()), (4, 2));
    for y in 0..2 {
        for x in 0..4 {
            assert_eq!(t.pixel_swizzled(x, y), Color::new(200, 100, 50));
        }
    }
}

#[test]
fn from_rgb8_scaling_blends_neighbours() {
    // a 4x1 image of black and white columns halves to two mid grays
    let rgb: Vec<u8> = vec![0, 0, 0, 255, 255, 255, 0, 0, 0, 255, 255, 255];
    let o = TextureOptions { max_w: 2, max_h: 2, generate_mips: false, ..TextureOptions::default() };
    let t = Texture::from_rgb8_with(rgb, 4, 1, o);
    assert_eq!((t.width(), t.height()), (2, 1));
    let c = t.pixel_swizzled(0, 0);
    assert!(c.r > 0 && c.r < 255);
}
