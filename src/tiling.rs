use vstd::prelude::*;
use vstd::arithmetic::div_mod::{
    lemma_fundamental_div_mod,
    lemma_fundamental_div_mod_converse,
    lemma_div_is_ordered,
    lemma_mod_bound,
};
use crate::color::Color;

verus! {

/// `n` rounded up to a whole number of tiles.
pub open spec fn padded(n: int, tile: int) -> int {
    ((n + tile - 1) / tile) * tile
}

/// Position of pixel `(x, y)` in tile-major storage: tiles of `tile x tile`
/// pixels are stored one after another, row by row, and each tile row-major.
pub open spec fn swz_index(tile: int, tiles_x: int, x: int, y: int) -> int {
    ((y / tile) * tiles_x + x / tile) * (tile * tile) + (y % tile) * tile + x % tile
}

/// Column of the pixel stored at position `k` of tile-major storage.
pub open spec fn swz_x(tile: int, tiles_x: int, k: int) -> int {
    ((k / (tile * tile)) % tiles_x) * tile + (k % (tile * tile)) % tile
}

/// Row of the pixel stored at position `k` of tile-major storage.
pub open spec fn swz_y(tile: int, tiles_x: int, k: int) -> int {
    ((k / (tile * tile)) / tiles_x) * tile + (k % (tile * tile)) / tile
}

/// `x` clamped to the last index below `n`.
pub open spec fn clamp_below(x: int, n: int) -> int {
    if x >= n { n - 1 } else { x }
}

/// Tile-major storage of a `w x h` row-major image, padded to whole tiles;
/// padding repeats the nearest edge pixel.
pub open spec fn swizzled(row: Seq<Color>, w: int, h: int, tile: int) -> Seq<Color> {
    let tiles_x = padded(w, tile) / tile;
    Seq::new(
        (padded(w, tile) * padded(h, tile)) as nat,
        |k: int|
            row[clamp_below(swz_y(tile, tiles_x, k), h) * w + clamp_below(swz_x(tile, tiles_x, k), w)],
    )
}

/// The row-major `w x h` image that tile-major storage holds.
pub open spec fn unswizzled(data: Seq<Color>, w: int, h: int, tile: int, tiles_x: int) -> Seq<Color> {
    Seq::new((w * h) as nat, |k: int| data[swz_index(tile, tiles_x, k % w, k / w)])
}

pub proof fn lemma_padded(n: int, tile: int)
    requires
        n > 0,
        tile > 0,
    ensures
        padded(n, tile) == ((n + tile - 1) / tile) * tile,
        (n + tile - 1) / tile >= 1,
        n <= padded(n, tile) < n + tile,
        tile <= padded(n, tile),
        padded(n, tile) / tile == (n + tile - 1) / tile,
{
    let q = (n + tile - 1) / tile;
    let r = (n + tile - 1) % tile;
    lemma_fundamental_div_mod(n + tile - 1, tile);
    lemma_mod_bound(n + tile - 1, tile);
    assert(n + tile - 1 == tile * q + r);
    assert(q >= 1) by (nonlinear_arith)
        requires n + tile - 1 == tile * q + r, 0 <= r < tile, n > 0;
    assert(n <= q * tile < n + tile) by (nonlinear_arith)
        requires n + tile - 1 == tile * q + r, 0 <= r < tile;
    assert(tile <= q * tile) by (nonlinear_arith)
        requires q >= 1, tile > 0;
    lemma_fundamental_div_mod_converse(q * tile, tile, q, 0);
}

pub proof fn lemma_padded_monotonic(a: int, b: int, tile: int)
    requires
        0 < a <= b,
        tile > 0,
    ensures
        padded(a, tile) <= padded(b, tile),
{
    lemma_div_is_ordered(a + tile - 1, b + tile - 1, tile);
    let qa = (a + tile - 1) / tile;
    let qb = (b + tile - 1) / tile;
    assert(qa * tile <= qb * tile) by (nonlinear_arith)
        requires qa <= qb, tile > 0;
}

/// A pixel inside the padded image has a storage position inside the
/// storage, and decoding that position gives the pixel back.
pub proof fn lemma_swz_decode(tile: int, tiles_x: int, tiles_y: int, x: int, y: int)
    requires
        tile > 0,
        tiles_x > 0,
        tiles_y > 0,
        0 <= x < tiles_x * tile,
        0 <= y < tiles_y * tile,
    ensures
        0 <= swz_index(tile, tiles_x, x, y) < (tiles_x * tile) * (tiles_y * tile),
        swz_x(tile, tiles_x, swz_index(tile, tiles_x, x, y)) == x,
        swz_y(tile, tiles_x, swz_index(tile, tiles_x, x, y)) == y,
{
    let tx = x / tile;
    let ix = x % tile;
    let ty = y / tile;
    let iy = y % tile;
    lemma_fundamental_div_mod(x, tile);
    lemma_fundamental_div_mod(y, tile);
    lemma_mod_bound(x, tile);
    lemma_mod_bound(y, tile);
    assert(0 <= tx < tiles_x) by (nonlinear_arith)
        requires x == tile * tx + ix, 0 <= ix < tile, 0 <= x < tiles_x * tile, tile > 0;
    assert(0 <= ty < tiles_y) by (nonlinear_arith)
        requires y == tile * ty + iy, 0 <= iy < tile, 0 <= y < tiles_y * tile, tile > 0;
    let tt = tile * tile;
    let r = iy * tile + ix;
    let t = ty * tiles_x + tx;
    assert(0 <= r < tt) by (nonlinear_arith)
        requires 0 <= iy < tile, 0 <= ix < tile, r == iy * tile + ix, tt == tile * tile;
    assert(0 <= t < tiles_x * tiles_y) by (nonlinear_arith)
        requires 0 <= ty < tiles_y, 0 <= tx < tiles_x, t == ty * tiles_x + tx;
    let k = t * tt + r;
    assert(k == swz_index(tile, tiles_x, x, y));
    assert(0 <= k < (tiles_x * tile) * (tiles_y * tile)) by (nonlinear_arith)
        requires
            0 <= t < tiles_x * tiles_y,
            0 <= r < tt,
            tt == tile * tile,
            k == t * tt + r,
    {
        assert(t * tt <= (tiles_x * tiles_y - 1) * tt);
        assert((tiles_x * tile) * (tiles_y * tile) == (tiles_x * tiles_y) * tt);
    }
    lemma_fundamental_div_mod_converse(k, tt, t, r);
    lemma_fundamental_div_mod_converse(t, tiles_x, ty, tx);
    lemma_fundamental_div_mod_converse(r, tile, iy, ix);
    assert(x == tx * tile + ix) by (nonlinear_arith)
        requires x == tile * tx + ix;
    assert(y == ty * tile + iy) by (nonlinear_arith)
        requires y == tile * ty + iy;
}

/// A pixel of a `w x h` image lies in row-major storage.
pub proof fn lemma_row_major_bound(x: int, y: int, w: int, h: int)
    requires
        0 <= x < w,
        0 <= y < h,
    ensures
        0 <= y * w + x < w * h,
{
    assert(0 <= y * w + x < w * h) by (nonlinear_arith)
        requires 0 <= x < w, 0 <= y < h;
}

/// Reading row-major storage at `k` reads pixel `(k % w, k / w)`.
pub proof fn lemma_row_major_decode(k: int, w: int, h: int)
    requires
        w > 0,
        0 <= k < w * h,
    ensures
        0 <= k % w < w,
        0 <= k / w < h,
        (k / w) * w + k % w == k,
{
    lemma_fundamental_div_mod(k, w);
    lemma_mod_bound(k, w);
    let q = k / w;
    let r = k % w;
    assert(0 <= q < h) by (nonlinear_arith)
        requires k == w * q + r, 0 <= r < w, 0 <= k < w * h, w > 0;
    assert(q * w + r == k) by (nonlinear_arith)
        requires k == w * q + r;
}

/// Position of pixel `(x, y)` in tile-major storage with `tiles_x` tiles per row.
pub fn idx_swizzled(tiles_x: usize, tiles_y: usize, tile: usize, x: usize, y: usize) -> (i: usize)
    requires
        tile > 0,
        tiles_x > 0,
        tiles_y > 0,
        x < tiles_x * tile,
        y < tiles_y * tile,
        (tiles_x * tile) * (tiles_y * tile) <= usize::MAX,
    ensures
        i == swz_index(tile as int, tiles_x as int, x as int, y as int),
        i < (tiles_x * tile) * (tiles_y * tile),
{
    proof {
        lemma_swz_decode(tile as int, tiles_x as int, tiles_y as int, x as int, y as int);
    }
    let tx = x / tile;
    let ty = y / tile;
    let ix = x % tile;
    let iy = y % tile;
    let total: Ghost<int> = Ghost((tiles_x * tile) * (tiles_y * tile));
    proof {
        lemma_fundamental_div_mod(x as int, tile as int);
        lemma_fundamental_div_mod(y as int, tile as int);
        let t = ty * tiles_x + tx;
        assert(0 <= t < tiles_x * tiles_y) by (nonlinear_arith)
            requires
                x == tile * tx + ix, 0 <= ix < tile, x < tiles_x * tile,
                y == tile * ty + iy, 0 <= iy < tile, y < tiles_y * tile,
                t == ty * tiles_x + tx, tile > 0, tiles_x > 0;
        assert(t * (tile * tile) <= total@) by (nonlinear_arith)
            requires
                0 <= t < tiles_x * tiles_y,
                total@ == (tiles_x * tile) * (tiles_y * tile);
        assert(tile * tile <= total@) by (nonlinear_arith)
            requires
                tiles_x >= 1, tiles_y >= 1, tile > 0,
                total@ == (tiles_x * tile) * (tiles_y * tile);
        assert(iy * tile + ix < tile * tile) by (nonlinear_arith)
            requires 0 <= iy < tile, 0 <= ix < tile;
        assert(tiles_x * tiles_y <= total@) by (nonlinear_arith)
            requires
                tiles_x >= 1, tiles_y >= 1, tile > 0,
                total@ == (tiles_x * tile) * (tiles_y * tile);
        assert(ty * tiles_x <= t);
    }
    (ty * tiles_x + tx) * (tile * tile) + iy * tile + ix
}

/// Every storage position decodes to a pixel inside the padded image.
pub proof fn lemma_swz_encode_bounds(tile: int, tiles_x: int, tiles_y: int, k: int)
    requires
        tile > 0,
        tiles_x > 0,
        tiles_y > 0,
        0 <= k < (tiles_x * tile) * (tiles_y * tile),
    ensures
        0 <= swz_x(tile, tiles_x, k) < tiles_x * tile,
        0 <= swz_y(tile, tiles_x, k) < tiles_y * tile,
{
    let tt = tile * tile;
    let t = k / tt;
    let r = k % tt;
    assert(tt > 0) by (nonlinear_arith)
        requires tile > 0, tt == tile * tile;
    lemma_fundamental_div_mod(k, tt);
    lemma_mod_bound(k, tt);
    assert((tiles_x * tile) * (tiles_y * tile) == (tiles_x * tiles_y) * tt) by (nonlinear_arith)
        requires tt == tile * tile;
    assert(0 <= t < tiles_x * tiles_y) by (nonlinear_arith)
        requires k == tt * t + r, 0 <= r < tt, 0 <= k < (tiles_x * tiles_y) * tt, tt > 0;
    lemma_fundamental_div_mod(t, tiles_x);
    lemma_mod_bound(t, tiles_x);
    let ty = t / tiles_x;
    let tx = t % tiles_x;
    assert(0 <= ty < tiles_y) by (nonlinear_arith)
        requires t == tiles_x * ty + tx, 0 <= tx < tiles_x, 0 <= t < tiles_x * tiles_y, tiles_x > 0;
    lemma_fundamental_div_mod(r, tile);
    lemma_mod_bound(r, tile);
    let iy = r / tile;
    let ix = r % tile;
    assert(0 <= iy < tile) by (nonlinear_arith)
        requires r == tile * iy + ix, 0 <= ix < tile, 0 <= r < tt, tt == tile * tile, tile > 0;
    assert(0 <= tx * tile + ix < tiles_x * tile) by (nonlinear_arith)
        requires 0 <= tx < tiles_x, 0 <= ix < tile;
    assert(0 <= ty * tile + iy < tiles_y * tile) by (nonlinear_arith)
        requires 0 <= ty < tiles_y, 0 <= iy < tile;
}

/// Tile-major storage of an image holds that image.
pub proof fn lemma_swizzle_holds_image(row: Seq<Color>, w: int, h: int, tile: int)
    requires
        w > 0,
        h > 0,
        tile > 0,
        row.len() == w * h,
    ensures
        unswizzled(swizzled(row, w, h, tile), w, h, tile, padded(w, tile) / tile) =~= row,
{
    lemma_padded(w, tile);
    lemma_padded(h, tile);
    let tiles_x = padded(w, tile) / tile;
    let tiles_y = padded(h, tile) / tile;
    let data = swizzled(row, w, h, tile);
    assert forall|k: int| 0 <= k < w * h implies
        #[trigger] unswizzled(data, w, h, tile, tiles_x)[k] == row[k] by {
        lemma_row_major_decode(k, w, h);
        let x = k % w;
        let y = k / w;
        lemma_swz_decode(tile, tiles_x, tiles_y, x, y);
    }
}

/// Lays a `w x h` row-major image out tile by tile; returns the padded width
/// and height, the number of tiles across and down, and the storage.
pub fn swizzle_from_row_major(row: &Vec<Color>, w: usize, h: usize, tile: usize)
    -> (r: (usize, usize, usize, usize, Vec<Color>))
    requires
        w > 0,
        h > 0,
        tile > 0,
        row@.len() == w * h,
        w + tile <= usize::MAX,
        h + tile <= usize::MAX,
        padded(w as int, tile as int) * padded(h as int, tile as int) <= usize::MAX,
    ensures
        r.0 == padded(w as int, tile as int),
        r.1 == padded(h as int, tile as int),
        r.2 as int == r.0 as int / tile as int,
        r.3 as int == r.1 as int / tile as int,
        r.2 > 0,
        r.3 > 0,
        r.0 == r.2 * tile,
        r.1 == r.3 * tile,
        r.4@ == swizzled(row@, w as int, h as int, tile as int),
{
    proof {
        lemma_padded(w as int, tile as int);
        lemma_padded(h as int, tile as int);
    }
    let tiles_x = (w + tile - 1) / tile;
    let tiles_y = (h + tile - 1) / tile;
    let pw = tiles_x * tile;
    let ph = tiles_y * tile;
    proof {
        assert(pw <= pw * ph) by (nonlinear_arith)
            requires ph >= 1, pw >= 0;
        assert(ph <= pw * ph) by (nonlinear_arith)
            requires pw >= 1, ph >= 0;
        assert(tile * tile <= pw * ph) by (nonlinear_arith)
            requires tile <= pw, tile <= ph, tile > 0;
    }
    let n = pw * ph;
    let tt = tile * tile;
    let row_len = row.len();
    assert(tt > 0) by (nonlinear_arith)
        requires tile > 0, tt == tile * tile;
    let ghost target = swizzled(row@, w as int, h as int, tile as int);
    let mut data: Vec<Color> = Vec::with_capacity(n);
    let mut k: usize = 0;
    while k < n
        invariant
            0 <= k <= n,
            n == pw * ph,
            tt == tile * tile,
            tt > 0,
            tiles_x > 0,
            tiles_y > 0,
            pw == tiles_x * tile,
            ph == tiles_y * tile,
            pw == padded(w as int, tile as int),
            ph == padded(h as int, tile as int),
            tiles_x as int == pw as int / tile as int,
            w > 0,
            h > 0,
            tile > 0,
            row@.len() == w * h,
            row_len == w * h,
            target == swizzled(row@, w as int, h as int, tile as int),
            data@.len() == k,
            forall|j: int| 0 <= j < k ==> data@[j] == target[j],
        decreases n - k,
    {
        proof {
            lemma_swz_encode_bounds(tile as int, tiles_x as int, tiles_y as int, k as int);
            lemma_fundamental_div_mod((k / tt) as int, tiles_x as int);
            lemma_fundamental_div_mod((k % tt) as int, tile as int);
        }
        let t = k / tt;
        let within = k % tt;
        let x = (t % tiles_x) * tile + within % tile;
        let y = (t / tiles_x) * tile + within / tile;
        let sx = if x >= w { w - 1 } else { x };
        let sy = if y >= h { h - 1 } else { y };
        proof {
            lemma_row_major_bound(sx as int, sy as int, w as int, h as int);
        }
        data.push(row[sy * w + sx]);
        k += 1;
    }
    proof {
        assert(data@ =~= target);
    }
    (pw, ph, tiles_x, tiles_y, data)
}

} // verus!
