use vstd::prelude::*;
use crate::color::{Color, hex_of};
use crate::framebuffer::Framebuffer;

verus! {

/// The buffer after drawing `stars` one after another in gray on a
/// `w x h` buffer; stars outside it are skipped, later stars overwrite.
pub open spec fn stars_drawn(buf: Seq<u32>, w: int, h: int, stars: Seq<(usize, usize, u8)>) -> Seq<u32>
    decreases stars.len(),
{
    if stars.len() == 0 {
        buf
    } else {
        let before = stars_drawn(buf, w, h, stars.drop_last());
        let (x, y, v) = stars.last();
        if x < w && y < h {
            before.update(y * w + x, hex_of(Color { r: v, g: v, b: v }))
        } else {
            before
        }
    }
}

/// Next state of the linear congruential generator that scatters stars.
pub open spec fn lcg_step(seed: u32) -> u32 {
    ((seed as int * 1664525 + 1013904223) % 0x1_0000_0000) as u32
}

/// Next state of the linear congruential generator that scatters stars:
/// `seed * 1664525 + 1013904223`, wrapping.
pub fn lcg_next(seed: u32) -> (r: u32)
    ensures
        r == lcg_step(seed),
{
    ((seed as u64 * 1664525 + 1013904223) % 0x1_0000_0000) as u32
}

/// A starfield: pixels of the screen with their gray level.
#[derive(Clone)]
pub struct Stars {
    star_pixels: Vec<(usize, usize, u8)>,
}

impl Stars {
    pub closed spec fn pixels(&self) -> Seq<(usize, usize, u8)> {
        self.star_pixels@
    }

    pub fn from_pixels(star_pixels: Vec<(usize, usize, u8)>) -> (s: Stars)
        ensures
            s.pixels() == star_pixels@,
    {
        Stars { star_pixels }
    }

    pub fn len(&self) -> (n: usize)
        ensures
            n == self.pixels().len(),
    {
        self.star_pixels.len()
    }

    /// Draws every star in gray, in order.
    pub fn draw_to_framebuffer(&self, framebuffer: &mut Framebuffer)
        requires
            old(framebuffer).wf(),
        ensures
            final(framebuffer).wf(),
            final(framebuffer).width == old(framebuffer).width,
            final(framebuffer).height == old(framebuffer).height,
            final(framebuffer).background_color == old(framebuffer).background_color,
            final(framebuffer).current_color == old(framebuffer).current_color,
            final(framebuffer).buffer@ == stars_drawn(
                old(framebuffer).buffer@,
                old(framebuffer).width as int,
                old(framebuffer).height as int,
                self.pixels(),
            ),
    {
        let ghost start = framebuffer.buffer@;
        let mut i: usize = 0;
        while i < self.star_pixels.len()
            invariant
                0 <= i <= self.star_pixels@.len(),
                framebuffer.wf(),
                framebuffer.width == old(framebuffer).width,
                framebuffer.height == old(framebuffer).height,
                framebuffer.background_color == old(framebuffer).background_color,
                framebuffer.current_color == old(framebuffer).current_color,
                start == old(framebuffer).buffer@,
                framebuffer.buffer@ == stars_drawn(
                    start,
                    framebuffer.width as int,
                    framebuffer.height as int,
                    self.star_pixels@.take(i as int),
                ),
            decreases self.star_pixels@.len() - i,
        {
            let (x, y, v) = self.star_pixels[i];
            proof {
                assert(self.star_pixels@.take(i + 1).drop_last() =~= self.star_pixels@.take(i as int));
            }
            framebuffer.set_pixel(x, y, Color::new(v, v, v));
            i += 1;
        }
        proof {
            assert(self.star_pixels@.take(self.star_pixels@.len() as int) =~= self.star_pixels@);
        }
    }
}

} // verus!
