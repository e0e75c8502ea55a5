use vstd::prelude::*;
use crate::color::Color;
use crate::tiling::lemma_row_major_bound;

verus! {

/// Half the side of the square window that the bloom blur averages over.
pub const BLOOM_RADIUS: usize = 5;

/// Side of the blur window.
pub const BLOOM_SIDE: usize = 11;

/// `v` clamped into `0..n`.
pub open spec fn clamp_into(v: int, n: int) -> int {
    if v < 0 { 0 } else if v >= n { n - 1 } else { v }
}

/// Channel `ch` (0 red, 1 green, 2 blue) of `c`.
pub open spec fn channel(c: Color, ch: int) -> int {
    if ch == 0 { c.r as int } else if ch == 1 { c.g as int } else { c.b as int }
}

/// Sum of channel `ch` over the first `n` pixels of window row `yy`, starting
/// `BLOOM_RADIUS` left of column `x`, each clamped into the `w x h` image.
pub open spec fn window_row_sum(img: Seq<Color>, w: int, h: int, x: int, yy: int, ch: int, n: int) -> int
    decreases n,
{
    if n <= 0 {
        0
    } else {
        window_row_sum(img, w, h, x, yy, ch, n - 1)
            + channel(img[clamp_into(yy, h) * w + clamp_into(x - BLOOM_RADIUS + n - 1, w)], ch)
    }
}

/// Sum of channel `ch` over the first `n` rows of the window around `(x, y)`.
pub open spec fn window_sum(img: Seq<Color>, w: int, h: int, x: int, y: int, ch: int, n: int) -> int
    decreases n,
{
    if n <= 0 {
        0
    } else {
        window_sum(img, w, h, x, y, ch, n - 1) + window_row_sum(
            img,
            w,
            h,
            x,
            y - BLOOM_RADIUS + n - 1,
            ch,
            BLOOM_SIDE as int,
        )
    }
}

/// Mean of channel `ch` over the whole window around `(x, y)`, rounded down.
pub open spec fn window_mean(img: Seq<Color>, w: int, h: int, x: int, y: int, ch: int) -> int {
    window_sum(img, w, h, x, y, ch, BLOOM_SIDE as int) / (BLOOM_SIDE * BLOOM_SIDE) as int
}

/// The `w x h` image blurred by the window mean: each pixel is the floor of the
/// mean of the 11 x 11 pixels around it, with the edge pixels repeated.
pub open spec fn box_blurred(img: Seq<Color>, w: int, h: int) -> Seq<Color> {
    Seq::new(
        (w * h) as nat,
        |k: int|
            Color {
                r: window_mean(img, w, h, k % w, k / w, 0) as u8,
                g: window_mean(img, w, h, k % w, k / w, 1) as u8,
                b: window_mean(img, w, h, k % w, k / w, 2) as u8,
            },
    )
}

proof fn lemma_row_sum_bound(img: Seq<Color>, w: int, h: int, x: int, yy: int, ch: int, n: int)
    requires
        n >= 0,
    ensures
        0 <= window_row_sum(img, w, h, x, yy, ch, n) <= 255 * n,
    decreases n,
{
    if n > 0 {
        lemma_row_sum_bound(img, w, h, x, yy, ch, n - 1);
    }
}

proof fn lemma_sum_bound(img: Seq<Color>, w: int, h: int, x: int, y: int, ch: int, n: int)
    requires
        n >= 0,
    ensures
        0 <= window_sum(img, w, h, x, y, ch, n) <= 255 * BLOOM_SIDE * n,
    decreases n,
{
    if n > 0 {
        lemma_sum_bound(img, w, h, x, y, ch, n - 1);
        lemma_row_sum_bound(img, w, h, x, y - BLOOM_RADIUS + n - 1, ch, BLOOM_SIDE as int);
    }
}

/// `v` clamped into `0..n`.
fn clamp_index(v: i128, n: usize) -> (r: usize)
    requires
        0 < n <= i64::MAX,
    ensures
        r == clamp_into(v as int, n as int),
{
    if v < 0 {
        0
    } else if v >= n as i128 {
        n - 1
    } else {
        v as usize
    }
}

/// Sums of the three channels over the window around `(x, y)`.
fn window_sums(img: &Vec<Color>, w: usize, h: usize, x: usize, y: usize) -> (r: (u32, u32, u32))
    requires
        w > 0,
        h > 0,
        x < w,
        y < h,
        img@.len() == w * h,
        w * h <= i64::MAX,
    ensures
        r.0 == window_sum(img@, w as int, h as int, x as int, y as int, 0, BLOOM_SIDE as int),
        r.1 == window_sum(img@, w as int, h as int, x as int, y as int, 1, BLOOM_SIDE as int),
        r.2 == window_sum(img@, w as int, h as int, x as int, y as int, 2, BLOOM_SIDE as int),
{
    let ghost s = img@;
    let len = img.len();
    proof {
        assert(w <= w * h && h <= w * h) by (nonlinear_arith)
            requires w > 0, h > 0;
    }
    let mut sr: u32 = 0;
    let mut sg: u32 = 0;
    let mut sb: u32 = 0;
    let mut j: usize = 0;
    while j < BLOOM_SIDE
        invariant
            0 <= j <= BLOOM_SIDE,
            s == img@,
            w > 0,
            h > 0,
            x < w,
            y < h,
            img@.len() == w * h,
            w * h <= i64::MAX,
            len == w * h,
            w <= i64::MAX,
            h <= i64::MAX,
            sr == window_sum(s, w as int, h as int, x as int, y as int, 0, j as int),
            sg == window_sum(s, w as int, h as int, x as int, y as int, 1, j as int),
            sb == window_sum(s, w as int, h as int, x as int, y as int, 2, j as int),
        decreases BLOOM_SIDE - j,
    {
        let yy = clamp_index(y as i128 - BLOOM_RADIUS as i128 + j as i128, h);
        let ghost row_y = y as int - BLOOM_RADIUS as int + j as int;
        let mut rr: u32 = 0;
        let mut rg: u32 = 0;
        let mut rb: u32 = 0;
        let mut i: usize = 0;
        proof {
            lemma_sum_bound(s, w as int, h as int, x as int, y as int, 0, j as int);
            lemma_sum_bound(s, w as int, h as int, x as int, y as int, 1, j as int);
            lemma_sum_bound(s, w as int, h as int, x as int, y as int, 2, j as int);
        }
        while i < BLOOM_SIDE
            invariant
                0 <= i <= BLOOM_SIDE,
                j < BLOOM_SIDE,
                s == img@,
                w > 0,
                h > 0,
                x < w,
                yy < h,
                yy == clamp_into(row_y, h as int),
                img@.len() == w * h,
                w * h <= i64::MAX,
                len == w * h,
                w <= i64::MAX,
                h <= i64::MAX,
                rr == window_row_sum(s, w as int, h as int, x as int, row_y, 0, i as int),
                rg == window_row_sum(s, w as int, h as int, x as int, row_y, 1, i as int),
                rb == window_row_sum(s, w as int, h as int, x as int, row_y, 2, i as int),
            decreases BLOOM_SIDE - i,
        {
            proof {
                lemma_row_sum_bound(s, w as int, h as int, x as int, row_y, 0, i as int);
                lemma_row_sum_bound(s, w as int, h as int, x as int, row_y, 1, i as int);
                lemma_row_sum_bound(s, w as int, h as int, x as int, row_y, 2, i as int);
            }
            let xx = clamp_index(x as i128 - BLOOM_RADIUS as i128 + i as i128, w);
            proof {
                lemma_row_major_bound(xx as int, yy as int, w as int, h as int);
            }
            let c = img[yy * w + xx];
            rr = rr + c.r as u32;
            rg = rg + c.g as u32;
            rb = rb + c.b as u32;
            i += 1;
        }
        proof {
            lemma_sum_bound(s, w as int, h as int, x as int, y as int, 0, j as int);
            lemma_sum_bound(s, w as int, h as int, x as int, y as int, 1, j as int);
            lemma_sum_bound(s, w as int, h as int, x as int, y as int, 2, j as int);
            lemma_row_sum_bound(s, w as int, h as int, x as int, row_y, 0, BLOOM_SIDE as int);
            lemma_row_sum_bound(s, w as int, h as int, x as int, row_y, 1, BLOOM_SIDE as int);
            lemma_row_sum_bound(s, w as int, h as int, x as int, row_y, 2, BLOOM_SIDE as int);
            assert(sr + rr <= 255 * 121 && sg + rg <= 255 * 121 && sb + rb <= 255 * 121) by (nonlinear_arith)
                requires
                    sr <= 2805 * j, sg <= 2805 * j, sb <= 2805 * j,
                    rr <= 2805, rg <= 2805, rb <= 2805,
                    j < 11;
        }
        sr = sr + rr;
        sg = sg + rg;
        sb = sb + rb;
        j += 1;
    }
    (sr, sg, sb)
}

/// Blurs a `w x h` row-major image by the mean over the 11 x 11 window around
/// each pixel, edge pixels repeated, each channel rounded down.
pub fn box_blur(img: &Vec<Color>, w: usize, h: usize) -> (r: Vec<Color>)
    requires
        img@.len() == w * h,
        w * h <= i64::MAX,
    ensures
        r@ == box_blurred(img@, w as int, h as int),
{
    let n = img.len();
    let mut out: Vec<Color> = Vec::with_capacity(n);
    let mut k: usize = 0;
    while k < n
        invariant
            0 <= k <= n,
            n == w * h,
            img@.len() == w * h,
            w * h <= i64::MAX,
            out@.len() == k,
            forall|j: int| 0 <= j < k ==> out@[j] == box_blurred(img@, w as int, h as int)[j],
        decreases n - k,
    {
        proof {
            lemma_row_major_decode_nonempty(k as int, w as int, h as int);
        }
        let x = k % w;
        let y = k / w;
        let (sr, sg, sb) = window_sums(img, w, h, x, y);
        proof {
            lemma_sum_bound(img@, w as int, h as int, x as int, y as int, 0, BLOOM_SIDE as int);
            lemma_sum_bound(img@, w as int, h as int, x as int, y as int, 1, BLOOM_SIDE as int);
            lemma_sum_bound(img@, w as int, h as int, x as int, y as int, 2, BLOOM_SIDE as int);
        }
        let area = (BLOOM_SIDE * BLOOM_SIDE) as u32;
        out.push(Color { r: (sr / area) as u8, g: (sg / area) as u8, b: (sb / area) as u8 });
        k += 1;
    }
    proof {
        assert(out@ =~= box_blurred(img@, w as int, h as int));
    }
    out
}

proof fn lemma_row_major_decode_nonempty(k: int, w: int, h: int)
    requires
        0 <= k < w * h,
        w >= 0,
    ensures
        w > 0,
        h > 0,
        0 <= k % w < w,
        0 <= k / w < h,
{
    if w == 0 {
        assert(w * h == 0);
    }
    assert(w > 0);
    crate::tiling::lemma_row_major_decode(k, w, h);
}

} // verus!
