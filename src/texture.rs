use vstd::prelude::*;
use vstd::arithmetic::div_mod::lemma_fundamental_div_mod_converse;
use crate::color::{Color, average4_spec};
use crate::tiling::{
    padded, unswizzled, clamp_below, swizzle_from_row_major, idx_swizzled,
    lemma_padded, lemma_padded_monotonic, lemma_swizzle_holds_image, lemma_row_major_bound,
    lemma_row_major_decode,
};

verus! {

/// Side of the square tiles that texture storage is laid out in.
pub const TILE: usize = 8;

/// Default largest texture width kept.
pub const TEX_MAX_W: u32 = 512;

/// Default largest texture height kept.
pub const TEX_MAX_H: u32 = 512;

/// How a texture is prepared when it is loaded.
#[derive(Clone, Copy, Debug)]
pub struct TextureOptions {
    /// Largest width kept; wider images are scaled down.
    pub max_w: u32,
    /// Largest height kept; taller images are scaled down.
    pub max_h: u32,
    /// Side of the storage tiles.
    pub tile: usize,
    /// Whether a chain of half-sized levels is built.
    pub generate_mips: bool,
    /// Most levels in the chain.
    pub max_mips: usize,
    /// The chain stops before a level with fewer pixels than this.
    pub min_mip_area: usize,
}

impl Default for TextureOptions {
    fn default() -> (o: Self)
        ensures
            o == (TextureOptions {
                max_w: TEX_MAX_W,
                max_h: TEX_MAX_H,
                tile: TILE,
                generate_mips: true,
                max_mips: 8,
                min_mip_area: 64,
            }),
    {
        TextureOptions {
            max_w: TEX_MAX_W,
            max_h: TEX_MAX_H,
            tile: TILE,
            generate_mips: true,
            max_mips: 8,
            min_mip_area: 64,
        }
    }
}

/// Well-formed tile-major storage of a `w x h` image.
pub open spec fn layout_wf(
    w: int,
    h: int,
    tile: int,
    pw: int,
    ph: int,
    tiles_x: int,
    tiles_y: int,
    len: int,
) -> bool {
    &&& w > 0
    &&& h > 0
    &&& tile > 0
    &&& tiles_x > 0
    &&& tiles_y > 0
    &&& pw == tiles_x * tile
    &&& ph == tiles_y * tile
    &&& w <= pw
    &&& h <= ph
    &&& pw * ph <= usize::MAX
    &&& len == pw * ph
}

/// One level of a mip chain.
#[derive(Clone, Debug)]
pub struct Mip {
    pub w: usize,
    pub h: usize,
    pub tile: usize,
    pub pw: usize,
    pub ph: usize,
    pub tiles_x: usize,
    pub tiles_y: usize,
    pub data_swz: Vec<Color>,
}

impl Mip {
    pub open spec fn wf(&self) -> bool {
        layout_wf(
            self.w as int,
            self.h as int,
            self.tile as int,
            self.pw as int,
            self.ph as int,
            self.tiles_x as int,
            self.tiles_y as int,
            self.data_swz@.len() as int,
        )
    }

    /// The row-major image this level holds.
    pub open spec fn image(&self) -> Seq<Color> {
        unswizzled(self.data_swz@, self.w as int, self.h as int, self.tile as int, self.tiles_x as int)
    }
}

/// The 2x2 box-filtered half of a `w x h` row-major image; at an odd edge the
/// last row or column is reused.
pub open spec fn downsample(img: Seq<Color>, w: int, h: int) -> Seq<Color> {
    let nw = w / 2;
    let nh = h / 2;
    Seq::new(
        (nw * nh) as nat,
        |k: int|
            {
                let ix = (k % nw) * 2;
                let iy = (k / nw) * 2;
                let x1 = clamp_below(ix + 1, w);
                let y1 = clamp_below(iy + 1, h);
                average4_spec(img[iy * w + ix], img[iy * w + x1], img[y1 * w + ix], img[y1 * w + x1])
            },
    )
}

/// `m` is the box-filtered half of the `w x h` image `img`.
pub open spec fn halves(img: Seq<Color>, w: int, h: int, m: Mip) -> bool {
    &&& m.wf()
    &&& m.w == w / 2
    &&& m.h == h / 2
    &&& m.image() == downsample(img, w, h)
}

/// Each level of `mips` is the box-filtered half of the one before it, the
/// first of the `w x h` image `base`.
pub open spec fn mip_chain(base: Seq<Color>, w: int, h: int, mips: Seq<Mip>) -> bool {
    &&& mips.len() > 0 ==> halves(base, w, h, mips[0])
    &&& forall|i: int|
        1 <= i < mips.len() ==> halves(mips[i - 1].image(), mips[i - 1].w as int, mips[i - 1].h as int, #[trigger] mips[i])
}

/// How many levels a chain below a `w x h` image has: halving goes on while
/// both sides exceed one pixel, fewer than `max_mips` levels were made and the
/// next level keeps at least `min_area` pixels.
pub open spec fn mip_levels(w: int, h: int, max_mips: int, min_area: int) -> nat
    decreases max_mips,
{
    if w > 1 && h > 1 && max_mips > 0 && (w / 2) * (h / 2) >= min_area {
        1 + mip_levels(w / 2, h / 2, max_mips - 1, min_area)
    } else {
        0
    }
}

/// A `w x h` image pixel `(x, y)` clamped into the image.
pub open spec fn clamped_at(img: Seq<Color>, w: int, h: int, x: int, y: int) -> Color {
    img[clamp_below(y, h) * w + clamp_below(x, w)]
}

/// The pixel at `(x, y)`, clamped into the image, read from tile-major storage.
fn pixel_swizzled_at(
    data: &Vec<Color>,
    tiles_x: usize,
    tiles_y: usize,
    tile: usize,
    pw: usize,
    ph: usize,
    w: usize,
    h: usize,
    x: usize,
    y: usize,
) -> (c: Color)
    requires
        layout_wf(w as int, h as int, tile as int, pw as int, ph as int, tiles_x as int, tiles_y as int, data@.len() as int),
    ensures
        c == clamped_at(unswizzled(data@, w as int, h as int, tile as int, tiles_x as int), w as int, h as int, x as int, y as int),
{
    let cx = if x >= w { w - 1 } else { x };
    let cy = if y >= h { h - 1 } else { y };
    let idx = idx_swizzled(tiles_x, tiles_y, tile, cx, cy);
    proof {
        lemma_row_major_bound(cx as int, cy as int, w as int, h as int);
        let k = cy * w + cx;
        lemma_fundamental_div_mod_converse(k as int, w as int, cy as int, cx as int);
    }
    data[idx]
}

impl Mip {
    fn from_row_major(row: &Vec<Color>, w: usize, h: usize, tile: usize) -> (m: Mip)
        requires
            w > 0,
            h > 0,
            tile > 0,
            row@.len() == w * h,
            w + tile <= usize::MAX,
            h + tile <= usize::MAX,
            padded(w as int, tile as int) * padded(h as int, tile as int) <= usize::MAX,
        ensures
            m.wf(),
            m.w == w,
            m.h == h,
            m.tile == tile,
            m.image() == row@,
    {
        let (pw, ph, tiles_x, tiles_y, data_swz) = swizzle_from_row_major(row, w, h, tile);
        proof {
            lemma_padded(w as int, tile as int);
            lemma_padded(h as int, tile as int);
            lemma_swizzle_holds_image(row@, w as int, h as int, tile as int);
        }
        Mip { w, h, tile, pw, ph, tiles_x, tiles_y, data_swz }
    }

    /// The pixel at `(x, y)`, clamped into the level.
    pub fn pixel(&self, x: usize, y: usize) -> (c: Color)
        requires
            self.wf(),
        ensures
            c == clamped_at(self.image(), self.w as int, self.h as int, x as int, y as int),
    {
        pixel_swizzled_at(&self.data_swz, self.tiles_x, self.tiles_y, self.tile, self.pw, self.ph, self.w, self.h, x, y)
    }
}

/// Box-filters a `w x h` row-major image down to half its size.
fn downsample_row_major(row: &Vec<Color>, w: usize, h: usize) -> (r: Vec<Color>)
    requires
        w > 1,
        h > 1,
        row@.len() == w * h,
    ensures
        r@ == downsample(row@, w as int, h as int),
{
    let nw = w / 2;
    let nh = h / 2;
    let row_len = row.len();
    proof {
        assert(nw * nh <= w * h) by (nonlinear_arith)
            requires nw <= w, nh <= h, nw >= 0, nh >= 0;
    }
    let n = nw * nh;
    let ghost target = downsample(row@, w as int, h as int);
    let mut out: Vec<Color> = Vec::with_capacity(n);
    let mut k: usize = 0;
    while k < n
        invariant
            0 <= k <= n,
            n == nw * nh,
            nw == w / 2,
            nh == h / 2,
            w > 1,
            h > 1,
            row@.len() == w * h,
            row_len == w * h,
            target == downsample(row@, w as int, h as int),
            out@.len() == k,
            forall|j: int| 0 <= j < k ==> out@[j] == target[j],
        decreases n - k,
    {
        proof {
            lemma_row_major_decode(k as int, nw as int, nh as int);
        }
        let ix = (k % nw) * 2;
        let iy = (k / nw) * 2;
        let x1 = if ix + 1 >= w { w - 1 } else { ix + 1 };
        let y1 = if iy + 1 >= h { h - 1 } else { iy + 1 };
        proof {
            lemma_row_major_bound(ix as int, iy as int, w as int, h as int);
            lemma_row_major_bound(x1 as int, iy as int, w as int, h as int);
            lemma_row_major_bound(ix as int, y1 as int, w as int, h as int);
            lemma_row_major_bound(x1 as int, y1 as int, w as int, h as int);
        }
        let c0 = row[iy * w + ix];
        let c1 = row[iy * w + x1];
        let c2 = row[y1 * w + ix];
        let c3 = row[y1 * w + x1];
        out.push(Color::average4(c0, c1, c2, c3));
        k += 1;
    }
    proof {
        assert(out@ =~= target);
    }
    out
}

/// Builds the chain of half-sized levels below a `w x h` row-major image.
fn build_mips_swizzled(row0: Vec<Color>, w0: usize, h0: usize, opts: TextureOptions) -> (out: Vec<Mip>)
    requires
        w0 > 0,
        h0 > 0,
        opts.tile > 0,
        row0@.len() == w0 * h0,
        w0 + opts.tile <= usize::MAX,
        h0 + opts.tile <= usize::MAX,
        padded(w0 as int, opts.tile as int) * padded(h0 as int, opts.tile as int) <= usize::MAX,
    ensures
        out@.len() == mip_levels(w0 as int, h0 as int, opts.max_mips as int, opts.min_mip_area as int),
        mip_chain(row0@, w0 as int, h0 as int, out@),
        forall|i: int| 0 <= i < out@.len() ==> (#[trigger] out@[i]).tile == opts.tile,
{
    let ghost base = row0@;
    let mut out: Vec<Mip> = Vec::new();
    let mut levels: usize = 0;
    let mut row_prev = row0;
    let mut w_prev = w0;
    let mut h_prev = h0;
    let tile = opts.tile;
    loop
        invariant
            0 < w_prev <= w0,
            0 < h_prev <= h0,
            tile == opts.tile,
            tile > 0,
            w0 + tile <= usize::MAX,
            h0 + tile <= usize::MAX,
            padded(w0 as int, tile as int) * padded(h0 as int, tile as int) <= usize::MAX,
            row_prev@.len() == w_prev * h_prev,
            levels <= opts.max_mips,
            out@.len() == levels,
            levels + mip_levels(w_prev as int, h_prev as int, opts.max_mips - levels, opts.min_mip_area as int)
                == mip_levels(w0 as int, h0 as int, opts.max_mips as int, opts.min_mip_area as int),
            levels == 0 ==> row_prev@ == base && w_prev == w0 && h_prev == h0,
            levels > 0 ==> row_prev@ == out@[levels - 1].image() && w_prev == out@[levels - 1].w
                && h_prev == out@[levels - 1].h,
            mip_chain(base, w0 as int, h0 as int, out@),
            forall|i: int| 0 <= i < out@.len() ==> (#[trigger] out@[i]).tile == tile,
        ensures
            out@.len() == mip_levels(w0 as int, h0 as int, opts.max_mips as int, opts.min_mip_area as int),
            mip_chain(base, w0 as int, h0 as int, out@),
            forall|i: int| 0 <= i < out@.len() ==> (#[trigger] out@[i]).tile == tile,
        decreases opts.max_mips - levels,
    {
        if !(w_prev > 1 && h_prev > 1 && levels < opts.max_mips) {
            break;
        }
        let nw = w_prev / 2;
        let nh = h_prev / 2;
        let prev_len = row_prev.len();
        proof {
            assert(nw * nh <= w_prev * h_prev) by (nonlinear_arith)
                requires 0 <= nw <= w_prev, 0 <= nh <= h_prev;
        }
        if nw * nh < opts.min_mip_area {
            break;
        }
        let row_next = downsample_row_major(&row_prev, w_prev, h_prev);
        proof {
            lemma_padded_monotonic(nw as int, w0 as int, tile as int);
            lemma_padded_monotonic(nh as int, h0 as int, tile as int);
            lemma_padded(nw as int, tile as int);
            lemma_padded(nh as int, tile as int);
            let a = padded(nw as int, tile as int);
            let b = padded(nh as int, tile as int);
            let a0 = padded(w0 as int, tile as int);
            let b0 = padded(h0 as int, tile as int);
            assert(a * b <= a0 * b0) by (nonlinear_arith)
                requires 0 <= a <= a0, 0 <= b <= b0;
        }
        let m = Mip::from_row_major(&row_next, nw, nh, tile);
        let ghost old_out = out@;
        out.push(m);
        proof {
            assert(out@[levels as int] == m);
            assert forall|i: int| 1 <= i < out@.len() implies
                halves(out@[i - 1].image(), out@[i - 1].w as int, out@[i - 1].h as int, #[trigger] out@[i]) by {
                if i < levels {
                    assert(out@[i] == old_out[i]);
                    assert(out@[i - 1] == old_out[i - 1]);
                }
            }
        }
        row_prev = row_next;
        w_prev = nw;
        h_prev = nh;
        levels += 1;
    }
    out
}

/// Whether an image of `w0 x h0` exceeds the `max_w x max_h` limit.
pub open spec fn needs_downscale(w0: int, h0: int, max_w: int, max_h: int) -> bool {
    w0 > max_w || h0 > max_h
}

pub open spec fn at_least_one(n: int) -> int {
    if n < 1 { 1 } else { n }
}

/// The size an image of `w0 x h0` is scaled to so that it fits in
/// `max_w x max_h`: both sides shrink by the smaller of the two ratios,
/// rounding down, and never below one pixel. An image that fits keeps its size.
pub open spec fn fit_dims(w0: int, h0: int, max_w: int, max_h: int) -> (int, int) {
    if !needs_downscale(w0, h0, max_w, max_h) {
        (w0, h0)
    } else if max_w * h0 <= max_h * w0 {
        (at_least_one(max_w), at_least_one(h0 * max_w / w0))
    } else {
        (at_least_one(w0 * max_h / h0), at_least_one(max_h))
    }
}

/// Colors of packed RGB bytes, three per pixel.
pub open spec fn rgb_colors(bytes: Seq<u8>) -> Seq<Color> {
    Seq::new(bytes.len() / 3, |i: int| Color { r: bytes[3 * i], g: bytes[3 * i + 1], b: bytes[3 * i + 2] })
}

/// What `image::imageops::resize` with the triangle filter makes of the
/// `w x h` RGB image `src` when asked for `nw x nh` pixels.
pub uninterp spec fn resized_rgb8(src: Seq<u8>, w: u32, h: u32, nw: u32, nh: u32) -> Seq<u8>;

/// Relies on `image::imageops::resize` (triangle filter) on an `RgbImage`
/// built by `ImageBuffer::from_raw`: the result holds `nw x nh` pixels of
/// three bytes and depends on the arguments alone.
#[verifier::external_body]
fn resize_rgb8(src: Vec<u8>, w: u32, h: u32, nw: u32, nh: u32) -> (r: Vec<u8>)
    requires
        src@.len() == 3 * w * h,
        0 < nw <= w,
        0 < nh <= h,
    ensures
        r@ == resized_rgb8(src@, w, h, nw, nh),
        r@.len() == 3 * nw * nh,
{
    let img = image::RgbImage::from_raw(w, h, src).expect("buffer holds every pixel");
    image::imageops::resize(&img, nw, nh, image::imageops::FilterType::Triangle).into_raw()
}

proof fn lemma_fit_dims(w0: int, h0: int, max_w: int, max_h: int)
    requires
        w0 > 0,
        h0 > 0,
        max_w >= 0,
        max_h >= 0,
    ensures
        0 < fit_dims(w0, h0, max_w, max_h).0 <= w0,
        0 < fit_dims(w0, h0, max_w, max_h).1 <= h0,
{
    if needs_downscale(w0, h0, max_w, max_h) {
        if max_w * h0 <= max_h * w0 {
            assert(max_w < w0) by (nonlinear_arith)
                requires max_w * h0 <= max_h * w0, w0 > max_w || h0 > max_h, h0 > 0, w0 > 0, max_w >= 0;
            assert(h0 * max_w / w0 <= h0) by (nonlinear_arith)
                requires max_w < w0, h0 > 0, w0 > 0, max_w >= 0;
        } else {
            assert(max_h < h0) by (nonlinear_arith)
                requires max_w * h0 > max_h * w0, w0 > max_w || h0 > max_h, h0 > 0, w0 > 0, max_h >= 0;
            assert(w0 * max_h / h0 <= w0) by (nonlinear_arith)
                requires max_h < h0, h0 > 0, w0 > 0, max_h >= 0;
        }
    }
}

/// The size, in whole pixels, that a `w0 x h0` image is scaled to so that it
/// fits in `max_w x max_h`.
pub fn fit_within(w0: u32, h0: u32, max_w: u32, max_h: u32) -> (r: (u32, u32))
    requires
        w0 > 0,
        h0 > 0,
    ensures
        r.0 as int == fit_dims(w0 as int, h0 as int, max_w as int, max_h as int).0,
        r.1 as int == fit_dims(w0 as int, h0 as int, max_w as int, max_h as int).1,
        0 < r.0 <= w0,
        0 < r.1 <= h0,
{
    proof {
        lemma_fit_dims(w0 as int, h0 as int, max_w as int, max_h as int);
    }
    if !(w0 > max_w || h0 > max_h) {
        return (w0, h0);
    }
    let (w, h, mw, mh) = (w0 as u64, h0 as u64, max_w as u64, max_h as u64);
    proof {
        assert(mw * h <= u32::MAX * u32::MAX) by (nonlinear_arith)
            requires mw <= u32::MAX, h <= u32::MAX;
        assert(mh * w <= u32::MAX * u32::MAX) by (nonlinear_arith)
            requires mh <= u32::MAX, w <= u32::MAX;
    }
    if mw * h <= mh * w {
        let th = h * mw / w;
        (if max_w < 1 { 1 } else { max_w }, if th < 1 { 1 } else { th as u32 })
    } else {
        let tw = w * mh / h;
        (if tw < 1 { 1 } else { tw as u32 }, if max_h < 1 { 1 } else { max_h })
    }
}

/// Colors of packed RGB bytes, three per pixel.
fn colors_from_rgb8(bytes: &Vec<u8>, n: usize) -> (r: Vec<Color>)
    requires
        bytes@.len() == 3 * n,
    ensures
        r@ == rgb_colors(bytes@),
{
    let len = bytes.len();
    let mut out: Vec<Color> = Vec::with_capacity(n);
    let mut i: usize = 0;
    while i < n
        invariant
            0 <= i <= n,
            bytes@.len() == 3 * n,
            len == 3 * n,
            out@.len() == i,
            forall|j: int| 0 <= j < i ==> out@[j] == rgb_colors(bytes@)[j],
        decreases n - i,
    {
        out.push(Color::new(bytes[3 * i], bytes[3 * i + 1], bytes[3 * i + 2]));
        i += 1;
    }
    proof {
        assert(out@ =~= rgb_colors(bytes@));
    }
    out
}

/// A decoded image, stored tile by tile, with an optional chain of
/// half-sized levels for sampling densely repeated surfaces.
#[derive(Clone, Debug)]
pub struct Texture {
    pub base: Mip,
    pub mips: Vec<Mip>,
}

/// Albedo and normal maps of one surface look.
#[derive(Clone, Debug)]
pub struct SkinTexture {
    pub albedo: Texture,
    pub normal: Texture,
}

impl Texture {
    pub open spec fn wf(&self) -> bool {
        &&& self.base.wf()
        &&& forall|i: int| 0 <= i < self.mips@.len() ==> (#[trigger] self.mips@[i]).wf()
    }

    /// The full-size row-major image.
    pub open spec fn image(&self) -> Seq<Color> {
        self.base.image()
    }

    /// A texture holding the `w x h` row-major image `row`.
    pub fn from_row_major(row: Vec<Color>, w: usize, h: usize, opt: TextureOptions) -> (t: Texture)
        requires
            w > 0,
            h > 0,
            opt.tile > 0,
            row@.len() == w * h,
            (w + opt.tile) * (h + opt.tile) <= usize::MAX,
        ensures
            t.wf(),
            t.base.w == w,
            t.base.h == h,
            t.image() == row@,
            t.mips@.len() == (if opt.generate_mips {
                mip_levels(w as int, h as int, opt.max_mips as int, opt.min_mip_area as int)
            } else {
                0
            }),
            mip_chain(row@, w as int, h as int, t.mips@),
    {
        proof {
            lemma_padded(w as int, opt.tile as int);
            lemma_padded(h as int, opt.tile as int);
            let a = padded(w as int, opt.tile as int);
            let b = padded(h as int, opt.tile as int);
            assert(a * b <= (w + opt.tile) * (h + opt.tile)) by (nonlinear_arith)
                requires 0 <= a <= w + opt.tile, 0 <= b <= h + opt.tile;
            assert(w + opt.tile <= (w + opt.tile) * (h + opt.tile)) by (nonlinear_arith)
                requires h + opt.tile >= 1, w + opt.tile >= 0;
            assert(h + opt.tile <= (w + opt.tile) * (h + opt.tile)) by (nonlinear_arith)
                requires w + opt.tile >= 1, h + opt.tile >= 0;
        }
        let base = Mip::from_row_major(&row, w, h, opt.tile);
        let mips = if opt.generate_mips {
            build_mips_swizzled(row, w, h, opt)
        } else {
            Vec::new()
        };
        Texture { base, mips }
    }

    /// A texture from a decoded `w0 x h0` RGB image, three bytes per pixel,
    /// first scaled down to fit `opt.max_w x opt.max_h`.
    pub fn from_rgb8_with(rgb: Vec<u8>, w0: u32, h0: u32, opt: TextureOptions) -> (t: Texture)
        requires
            w0 > 0,
            h0 > 0,
            opt.tile > 0,
            rgb@.len() == 3 * w0 * h0,
            (w0 + opt.tile) * (h0 + opt.tile) <= usize::MAX,
        ensures
            t.wf(),
            t.base.w == fit_dims(w0 as int, h0 as int, opt.max_w as int, opt.max_h as int).0,
            t.base.h == fit_dims(w0 as int, h0 as int, opt.max_w as int, opt.max_h as int).1,
            t.image() == rgb_colors(
                if needs_downscale(w0 as int, h0 as int, opt.max_w as int, opt.max_h as int) {
                    resized_rgb8(
                        rgb@,
                        w0,
                        h0,
                        fit_dims(w0 as int, h0 as int, opt.max_w as int, opt.max_h as int).0 as u32,
                        fit_dims(w0 as int, h0 as int, opt.max_w as int, opt.max_h as int).1 as u32,
                    )
                } else {
                    rgb@
                },
            ),
            t.mips@.len() == (if opt.generate_mips {
                mip_levels(t.base.w as int, t.base.h as int, opt.max_mips as int, opt.min_mip_area as int)
            } else {
                0
            }),
            mip_chain(t.image(), t.base.w as int, t.base.h as int, t.mips@),
    {
        let (tw, th) = fit_within(w0, h0, opt.max_w, opt.max_h);
        let bytes = if w0 > opt.max_w || h0 > opt.max_h {
            resize_rgb8(rgb, w0, h0, tw, th)
        } else {
            rgb
        };
        let w = tw as usize;
        let h = th as usize;
        proof {
            assert(w * h <= (w0 + opt.tile) * (h0 + opt.tile)) by (nonlinear_arith)
                requires 0 < w <= w0, 0 < h <= h0, opt.tile >= 0;
            assert((w + opt.tile) * (h + opt.tile) <= (w0 + opt.tile) * (h0 + opt.tile)) by (nonlinear_arith)
                requires 0 < w <= w0, 0 < h <= h0, opt.tile >= 0;
            assert(bytes@.len() == 3 * tw * th);
            assert(bytes@.len() == 3 * (w * h)) by (nonlinear_arith)
                requires bytes@.len() == 3 * tw * th, w == tw, h == th;
        }
        let row = colors_from_rgb8(&bytes, w * h);
        proof {
            assert(row@.len() == w * h);
        }
        Texture::from_row_major(row, w, h, opt)
    }

    pub fn width(&self) -> (w: usize)
        ensures
            w == self.base.w,
    {
        self.base.w
    }

    pub fn height(&self) -> (h: usize)
        ensures
            h == self.base.h,
    {
        self.base.h
    }

    /// The pixel at `(x, y)` of the full-size image, clamped into it.
    pub fn pixel_swizzled(&self, x: usize, y: usize) -> (c: Color)
        requires
            self.wf(),
        ensures
            c == clamped_at(self.image(), self.base.w as int, self.base.h as int, x as int, y as int),
    {
        self.base.pixel(x, y)
    }

    /// Number of half-sized levels below the full-size image.
    pub fn mip_count(&self) -> (n: usize)
        ensures
            n == self.mips@.len(),
    {
        self.mips.len()
    }

    /// Width and height of level `level` of the chain.
    pub fn mip_size(&self, level: usize) -> (r: (usize, usize))
        requires
            level < self.mips@.len(),
        ensures
            r == (self.mips@[level as int].w, self.mips@[level as int].h),
    {
        (self.mips[level].w, self.mips[level].h)
    }

    /// The pixel at `(x, y)` of level `level` of the chain, clamped into it.
    pub fn pixel_swizzled_mip(&self, level: usize, x: usize, y: usize) -> (c: Color)
        requires
            self.wf(),
            level < self.mips@.len(),
        ensures
            c == clamped_at(
                self.mips@[level as int].image(),
                self.mips@[level as int].w as int,
                self.mips@[level as int].h as int,
                x as int,
                y as int,
            ),
    {
        self.mips[level].pixel(x, y)
    }

    /// The level to sample for a level of detail of `lod` (the whole part of
    /// the base-2 logarithm of the tiling density): none below one, else level
    /// `lod - 1`, capped at the last level.
    pub fn pick_mip_for_lod(&self, lod: i32) -> (r: Option<usize>)
        ensures
            self.mips@.len() == 0 || lod <= 0 ==> r is None,
            self.mips@.len() > 0 && lod > 0 ==> r == Some(
                if lod - 1 < self.mips@.len() - 1 { (lod - 1) as usize } else { (self.mips@.len() - 1) as usize },
            ),
    {
        if self.mips.len() == 0 || lod <= 0 {
            return None;
        }
        let want = (lod - 1) as usize;
        let last = self.mips.len() - 1;
        Some(if want < last { want } else { last })
    }
}

} // verus!
