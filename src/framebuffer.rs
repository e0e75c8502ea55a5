use vstd::prelude::*;
use crate::color::{Color, hex_of};
use vstd::arithmetic::div_mod::lemma_fundamental_div_mod_converse;
use crate::tiling::{lemma_row_major_bound, lemma_row_major_decode};

verus! {

/// Initial background word, `0xRRGGBB`.
pub const DEFAULT_BACKGROUND: u32 = 0x3377ff;

/// Initial drawing word, `0xRRGGBB`.
pub const DEFAULT_CURRENT: u32 = 0xffffff;

/// A row-major buffer of packed `0xRRGGBB` pixels.
pub struct Framebuffer {
    pub width: usize,
    pub height: usize,
    pub buffer: Vec<u32>,
    pub background_color: u32,
    pub current_color: u32,
}

impl Framebuffer {
    pub open spec fn wf(&self) -> bool {
        &&& self.buffer@.len() == self.width * self.height
        &&& self.width * self.height <= usize::MAX
    }

    /// Position of pixel `(x, y)` in the buffer.
    pub open spec fn index_of(&self, x: int, y: int) -> int {
        y * self.width + x
    }

    /// A `width x height` buffer of zeros.
    pub fn new(width: usize, height: usize) -> (fb: Framebuffer)
        requires
            width * height <= usize::MAX,
        ensures
            fb.wf(),
            fb.width == width,
            fb.height == height,
            forall|k: int| 0 <= k < fb.buffer@.len() ==> fb.buffer@[k] == 0,
            fb.background_color == DEFAULT_BACKGROUND,
            fb.current_color == DEFAULT_CURRENT,
    {
        let n = width * height;
        let mut buffer: Vec<u32> = Vec::with_capacity(n);
        let mut k: usize = 0;
        while k < n
            invariant
                k <= n,
                buffer@.len() == k,
                forall|j: int| 0 <= j < k ==> buffer@[j] == 0,
            decreases n - k,
        {
            buffer.push(0);
            k += 1;
        }
        Framebuffer {
            width,
            height,
            buffer,
            background_color: DEFAULT_BACKGROUND,
            current_color: DEFAULT_CURRENT,
        }
    }

    pub fn set_current_color(&mut self, color: u32)
        ensures
            final(self).current_color == color,
            final(self).background_color == old(self).background_color,
            final(self).width == old(self).width,
            final(self).height == old(self).height,
            final(self).buffer@ == old(self).buffer@,
    {
        self.current_color = color;
    }

    pub fn set_background_color(&mut self, color: u32)
        ensures
            final(self).background_color == color,
            final(self).current_color == old(self).current_color,
            final(self).width == old(self).width,
            final(self).height == old(self).height,
            final(self).buffer@ == old(self).buffer@,
    {
        self.background_color = color;
    }

    pub fn width(&self) -> (w: usize)
        ensures
            w == self.width,
    {
        self.width
    }

    pub fn height(&self) -> (h: usize)
        ensures
            h == self.height,
    {
        self.height
    }

    /// Writes `color` at `(x, y)`; a point outside the buffer is ignored.
    pub fn put(&mut self, x: usize, y: usize, color: u32)
        requires
            old(self).wf(),
        ensures
            final(self).wf(),
            final(self).width == old(self).width,
            final(self).height == old(self).height,
            final(self).background_color == old(self).background_color,
            final(self).current_color == old(self).current_color,
            final(self).buffer@ == (if x < old(self).width && y < old(self).height {
                old(self).buffer@.update(old(self).index_of(x as int, y as int), color)
            } else {
                old(self).buffer@
            }),
    {
        if x < self.width && y < self.height {
            proof {
                lemma_row_major_bound(x as int, y as int, self.width as int, self.height as int);
            }
            let i = y * self.width + x;
            self.buffer.set(i, color);
        }
    }

    /// Writes `color`, packed, at `(x, y)`; a point outside the buffer is ignored.
    pub fn set_pixel(&mut self, x: usize, y: usize, color: Color)
        requires
            old(self).wf(),
        ensures
            final(self).wf(),
            final(self).width == old(self).width,
            final(self).height == old(self).height,
            final(self).background_color == old(self).background_color,
            final(self).current_color == old(self).current_color,
            final(self).buffer@ == (if x < old(self).width && y < old(self).height {
                old(self).buffer@.update(old(self).index_of(x as int, y as int), hex_of(color))
            } else {
                old(self).buffer@
            }),
    {
        self.put(x, y, color.to_hex());
    }

    /// The word at `(x, y)`, or none outside the buffer.
    pub fn get_pixel(&self, x: usize, y: usize) -> (r: Option<u32>)
        requires
            self.wf(),
        ensures
            r == (if x < self.width && y < self.height {
                Some(self.buffer@[self.index_of(x as int, y as int)])
            } else {
                None::<u32>
            }),
    {
        if x < self.width && y < self.height {
            proof {
                lemma_row_major_bound(x as int, y as int, self.width as int, self.height as int);
            }
            Some(self.buffer[y * self.width + x])
        } else {
            None
        }
    }

    /// Replaces row `y` with `row`.
    pub fn write_row(&mut self, y: usize, row: &Vec<u32>)
        requires
            old(self).wf(),
            y < old(self).height,
            row@.len() == old(self).width,
        ensures
            final(self).wf(),
            final(self).width == old(self).width,
            final(self).height == old(self).height,
            final(self).background_color == old(self).background_color,
            final(self).current_color == old(self).current_color,
            forall|k: int|
                0 <= k < final(self).buffer@.len() ==> #[trigger] final(self).buffer@[k] == (if y * old(
                    self,
                ).width <= k < (y + 1) * old(self).width {
                    row@[k - y * old(self).width]
                } else {
                    old(self).buffer@[k]
                }),
    {
        let w = self.width;
        let ghost before = self.buffer@;
        let mut x: usize = 0;
        while x < w
            invariant
                0 <= x <= w,
                w == self.width,
                y < self.height,
                row@.len() == w,
                self.wf(),
                self.height == old(self).height,
                self.background_color == old(self).background_color,
                self.current_color == old(self).current_color,
                before == old(self).buffer@,
                self.buffer@.len() == before.len(),
                forall|k: int|
                    0 <= k < self.buffer@.len() ==> #[trigger] self.buffer@[k] == (if y * w <= k < y * w + x {
                        row@[k - y * w]
                    } else {
                        before[k]
                    }),
            decreases w - x,
        {
            proof {
                lemma_row_major_bound(x as int, y as int, w as int, self.height as int);
            }
            self.buffer.set(y * w + x, row[x]);
            x += 1;
        }
        proof {
            assert((y + 1) * w == y * w + w) by (nonlinear_arith);
        }
    }

    /// Sets every pixel to `color`.
    pub fn fill(&mut self, color: u32)
        requires
            old(self).wf(),
        ensures
            final(self).wf(),
            final(self).width == old(self).width,
            final(self).height == old(self).height,
            final(self).background_color == old(self).background_color,
            final(self).current_color == old(self).current_color,
            forall|k: int| 0 <= k < final(self).buffer@.len() ==> final(self).buffer@[k] == color,
    {
        let n = self.buffer.len();
        let mut k: usize = 0;
        while k < n
            invariant
                0 <= k <= n,
                self.wf(),
                n == self.buffer@.len(),
                self.width == old(self).width,
                self.height == old(self).height,
                self.background_color == old(self).background_color,
                self.current_color == old(self).current_color,
                forall|j: int| 0 <= j < k ==> self.buffer@[j] == color,
            decreases n - k,
        {
            self.buffer.set(k, color);
            k += 1;
        }
    }

    /// Sets every pixel to the background color.
    pub fn clear(&mut self)
        requires
            old(self).wf(),
        ensures
            final(self).wf(),
            final(self).width == old(self).width,
            final(self).height == old(self).height,
            final(self).background_color == old(self).background_color,
            final(self).current_color == old(self).current_color,
            forall|k: int| 0 <= k < final(self).buffer@.len() ==> final(self).buffer@[k] == old(self).background_color,
    {
        let c = self.background_color;
        self.fill(c);
    }

    /// Writes `color` at `(x, y)` given as signed coordinates; a point
    /// outside the buffer is ignored.
    pub fn set_pixel_i32(&mut self, x: i32, y: i32, color: u32)
        requires
            old(self).wf(),
        ensures
            final(self).wf(),
            final(self).width == old(self).width,
            final(self).height == old(self).height,
            final(self).background_color == old(self).background_color,
            final(self).current_color == old(self).current_color,
            final(self).buffer@ == (if 0 <= x < old(self).width && 0 <= y < old(self).height {
                old(self).buffer@.update(old(self).index_of(x as int, y as int), color)
            } else {
                old(self).buffer@
            }),
    {
        if x >= 0 && y >= 0 {
            self.put(x as usize, y as usize, color);
        }
    }

    /// Gives the buffer a new size, every pixel the background color.
    pub fn resize(&mut self, width: usize, height: usize)
        requires
            width > 0,
            height > 0,
            width * height <= usize::MAX,
        ensures
            final(self).wf(),
            final(self).width == width,
            final(self).height == height,
            final(self).background_color == old(self).background_color,
            final(self).current_color == old(self).current_color,
            forall|k: int| 0 <= k < final(self).buffer@.len() ==> final(self).buffer@[k] == old(self).background_color,
    {
        let n = width * height;
        let bg = self.background_color;
        let mut buffer: Vec<u32> = Vec::with_capacity(n);
        let mut k: usize = 0;
        while k < n
            invariant
                k <= n,
                buffer@.len() == k,
                forall|j: int| 0 <= j < k ==> buffer@[j] == bg,
            decreases n - k,
        {
            buffer.push(bg);
            k += 1;
        }
        self.width = width;
        self.height = height;
        self.buffer = buffer;
    }

    /// Whether position `k` of the buffer lies in the `size x size` square
    /// whose top-left pixel is `(x, y)`.
    pub open spec fn in_square(&self, k: int, x: int, y: int, size: int) -> bool {
        &&& x <= k % (self.width as int) < x + size
        &&& y <= k / (self.width as int) < y + size
    }

    /// Paints the `size x size` square whose top-left pixel is `(x, y)`,
    /// clipped to the buffer.
    pub fn set_thick_pixel(&mut self, x: usize, y: usize, size: usize, color: u32)
        requires
            old(self).wf(),
        ensures
            final(self).wf(),
            final(self).width == old(self).width,
            final(self).height == old(self).height,
            final(self).background_color == old(self).background_color,
            final(self).current_color == old(self).current_color,
            forall|k: int|
                0 <= k < final(self).buffer@.len() ==> #[trigger] final(self).buffer@[k] == (if old(self).in_square(
                    k,
                    x as int,
                    y as int,
                    size as int,
                ) {
                    color
                } else {
                    old(self).buffer@[k]
                }),
    {
        let w = self.width;
        let h = self.height;
        if x >= w || y >= h {
            proof {
                assert forall|k: int| 0 <= k < self.buffer@.len() implies !old(self).in_square(
                    k,
                    x as int,
                    y as int,
                    size as int,
                ) by {
                    lemma_row_major_decode(k, w as int, h as int);
                }
            }
            return;
        }
        let x_end = if size < w - x { x + size } else { w };
        let y_end = if size < h - y { y + size } else { h };
        let ghost before = self.buffer@;
        let mut py = y;
        while py < y_end
            invariant
                y <= py <= y_end <= h,
                x <= x_end <= w,
                w == self.width,
                h == self.height,
                w > 0,
                self.wf(),
                self.background_color == old(self).background_color,
                self.current_color == old(self).current_color,
                before == old(self).buffer@,
                self.buffer@.len() == before.len(),
                forall|k: int|
                    0 <= k < self.buffer@.len() ==> #[trigger] self.buffer@[k] == (if y <= k / (w as int) < py && x
                        <= k % (w as int) < x_end {
                        color
                    } else {
                        before[k]
                    }),
            decreases y_end - py,
        {
            let mut px = x;
            while px < x_end
                invariant
                    x <= px <= x_end <= w,
                    y <= py < y_end <= h,
                    w == self.width,
                    h == self.height,
                    w > 0,
                    self.wf(),
                    self.background_color == old(self).background_color,
                    self.current_color == old(self).current_color,
                    before == old(self).buffer@,
                    self.buffer@.len() == before.len(),
                    forall|k: int|
                        0 <= k < self.buffer@.len() ==> #[trigger] self.buffer@[k] == (if (y <= k / (w as int)
                            < py && x <= k % (w as int) < x_end) || (k / (w as int) == py && x <= k % (w as int)
                            < px) {
                            color
                        } else {
                            before[k]
                        }),
                decreases x_end - px,
            {
                proof {
                    lemma_row_major_bound(px as int, py as int, w as int, h as int);
                    lemma_fundamental_div_mod_converse((py * w + px) as int, w as int, py as int, px as int);
                }
                let ghost prev = self.buffer@;
                self.buffer.set(py * w + px, color);
                proof {
                    assert forall|k: int| 0 <= k < self.buffer@.len() implies #[trigger] self.buffer@[k] == (if (y
                        <= k / (w as int) < py && x <= k % (w as int) < x_end) || (k / (w as int) == py && x <= k
                        % (w as int) < px + 1) {
                        color
                    } else {
                        before[k]
                    }) by {
                        if k != py * w + px {
                            assert(self.buffer@[k] == prev[k]);
                            lemma_row_major_decode(k, w as int, h as int);
                            if k / (w as int) == py && k % (w as int) == px {
                                assert(k == (k / (w as int)) * (w as int) + k % (w as int));
                            }
                        }
                    }
                }
                px += 1;
            }
            py += 1;
        }
        proof {
            assert forall|k: int| 0 <= k < self.buffer@.len() implies #[trigger] self.buffer@[k] == (if old(
                self,
            ).in_square(k, x as int, y as int, size as int) {
                color
            } else {
                old(self).buffer@[k]
            }) by {
                lemma_row_major_decode(k, w as int, h as int);
            }
        }
    }
}

} // verus!
