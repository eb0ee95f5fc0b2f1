//! The frame buffer: a grid of one-bit pixels that sprites are drawn onto
//! with exclusive or, wrapping at the edges.

use vstd::prelude::*;
use vstd::arithmetic::div_mod::lemma_add_mod_noop;
use vstd::arithmetic::div_mod::lemma_fundamental_div_mod_converse;
use vstd::arithmetic::div_mod::lemma_small_mod;
use crate::sprite::{collides, drawn, erases, inverted, sprite_bit, target_col, target_row};

verus! {

/// A `width` x `height` grid of pixels, stored row by row in `buffer`, one
/// byte per pixel: 1 for a lit pixel, 0 for a dark one.
pub struct Display {
    pub width: usize,
    pub height: usize,
    pub buffer: Vec<u8>,
    /// Set by every operation that writes pixels.
    pub dirty: bool,
}

impl View for Display {
    type V = Seq<Seq<bool>>;

    /// The grid as rows of pixels: `self@[row][col]` says whether the pixel
    /// in that row and column is lit.
    open spec fn view(&self) -> Seq<Seq<bool>> {
        Seq::new(
            self.height as nat,
            |r: int|
                Seq::new(self.width as nat, |c: int| self.buffer@[cell(self.width as int, c, r)] == 1u8),
        )
    }
}

/// A grid of `height` rows and `width` columns with no pixel lit.
pub open spec fn blank(width: nat, height: nat) -> Seq<Seq<bool>> {
    Seq::new(height, |r: int| Seq::new(width, |c: int| false))
}

/// The place in the buffer of the pixel in column `c` of row `r`, where a
/// row has `w` pixels.
pub open spec fn cell(w: int, c: int, r: int) -> int {
    r * w + c
}

/// The place of a pixel of a `w` x `h` grid lies inside the buffer, and
/// gives back both coordinates.
pub proof fn lemma_cell_index(w: int, h: int, c: int, r: int)
    requires
        0 <= c < w,
        0 <= r < h,
    ensures
        0 <= r * w,
        0 <= cell(w, c, r) < w * h,
        cell(w, c, r) / w == r,
        cell(w, c, r) % w == c,
{
    assert(0 <= r * w && r * w + w <= w * h) by (nonlinear_arith)
        requires
            0 <= r < h,
            0 < w,
    ;
    lemma_fundamental_div_mod_converse(r * w + c, w, r, c);
}

/// `(a + b) mod m`, computed without leaving the range of `usize`.
pub fn add_mod(a: usize, b: usize, m: usize) -> (s: usize)
    requires
        m > 0,
    ensures
        s == (a + b) % (m as int),
{
    let am: usize = a % m;
    let bm: usize = b % m;
    proof {
        lemma_add_mod_noop(a as int, b as int, m as int);
    }
    if am >= m - bm {
        proof {
            let t: int = am + bm - m;
            lemma_fundamental_div_mod_converse(am + bm, m as int, 1, t);
        }
        am - (m - bm)
    } else {
        proof {
            lemma_small_mod((am + bm) as nat, m as nat);
        }
        am + bm
    }
}

impl Display {
    /// The buffer holds one byte per pixel, each 0 or 1.
    pub open spec fn wf(&self) -> bool {
        &&& self.buffer@.len() == self.width * self.height
        &&& forall|i: int| 0 <= i < self.buffer@.len() ==> #[trigger] self.buffer@[i] <= 1
    }

    /// A dark grid of the given size.
    pub fn new(width: usize, height: usize) -> (d: Display)
        requires
            width * height <= usize::MAX,
        ensures
            d.wf(),
            d.width == width,
            d.height == height,
            !d.dirty,
            d@ == blank(width as nat, height as nat),
    {
        let d = Display { width, height, buffer: vec![0u8; width * height], dirty: false };
        proof {
            assert forall|r: int, c: int| 0 <= r < height && 0 <= c < width implies d.buffer@[#[trigger] cell(
                width as int,
                c,
                r,
            )] == 0u8 by {
                lemma_cell_index(width as int, height as int, c, r);
            }
            assert(d@ =~~= blank(width as nat, height as nat));
        }
        d
    }

    /// Darkens every pixel and marks the grid as changed.
    pub fn clear(&mut self)
        requires
            old(self).wf(),
        ensures
            final(self).wf(),
            final(self).width == old(self).width,
            final(self).height == old(self).height,
            final(self).dirty,
            final(self)@ == blank(old(self).width as nat, old(self).height as nat),
    {
        let n: usize = self.buffer.len();
        let mut i: usize = 0;
        while i < n
            invariant
                i <= n,
                n == self.buffer@.len(),
                self.width == old(self).width,
                self.height == old(self).height,
                n == self.width * self.height,
                forall|k: int| 0 <= k < i ==> self.buffer@[k] == 0u8,
            decreases n - i,
        {
            self.buffer[i] = 0;
            i += 1;
        }
        self.dirty = true;
        proof {
            let w = self.width as int;
            let h = self.height as int;
            assert forall|r: int, c: int| 0 <= r < h && 0 <= c < w implies self.buffer@[#[trigger] cell(
                w,
                c,
                r,
            )] == 0u8 by {
                lemma_cell_index(w, h, c, r);
            }
            assert(self@ =~~= blank(self.width as nat, self.height as nat));
        }
    }
    /// Inverts the pixel in column `x mod width` of row `y mod height`,
    /// marks the grid as changed, and says whether the pixel was lit before.
    pub fn toggle_pixel(&mut self, x: usize, y: usize) -> (was_lit: bool)
        requires
            old(self).wf(),
            old(self).width > 0,
            old(self).height > 0,
        ensures
            final(self).wf(),
            final(self).width == old(self).width,
            final(self).height == old(self).height,
            final(self).dirty,
            was_lit == old(self)@[(y as int) % (old(self).height as int)][(x as int) % (old(
                self,
            ).width as int)],
            final(self)@ == inverted(
                old(self)@,
                (x as int) % (old(self).width as int),
                (y as int) % (old(self).height as int),
            ),
    {
        let c: usize = x % self.width;
        let r: usize = y % self.height;
        let ghost w = self.width as int;
        let ghost h = self.height as int;
        proof {
            lemma_cell_index(w, h, c as int, r as int);
            assert(w * h == self.buffer.len());
        }
        let index: usize = r * self.width + c;
        let before: u8 = self.buffer[index];
        self.buffer[index] = 1 - before;
        self.dirty = true;
        proof {
            assert forall|rr: int, cc: int| 0 <= rr < h && 0 <= cc < w implies self@[rr][cc]
                == #[trigger] inverted(old(self)@, c as int, r as int)[rr][cc] by {
                lemma_cell_index(w, h, cc, rr);
            }
            assert(self@ =~~= inverted(old(self)@, c as int, r as int));
        }
        before == 1
    }
    /// Draws a sprite with its top left corner at column `x`, row `y`: each
    /// set bit of each row, most significant bit leftmost, inverts the
    /// pixel it lands on, and coordinates past an edge wrap round to the
    /// opposite edge. Marks the grid as changed. The result says whether
    /// any set bit found its pixel lit.
    pub fn draw_sprite(&mut self, x: usize, y: usize, sprite: &[u8]) -> (collision: bool)
        requires
            old(self).wf(),
            old(self).width > 0,
            old(self).height > 0,
        ensures
            final(self).wf(),
            final(self).width == old(self).width,
            final(self).height == old(self).height,
            final(self).dirty,
            final(self)@ == drawn(
                old(self)@,
                old(self).width as int,
                old(self).height as int,
                x as int,
                y as int,
                sprite@,
                8 * (sprite@.len() as int),
            ),
            collision == collides(
                old(self)@,
                old(self).width as int,
                old(self).height as int,
                x as int,
                y as int,
                sprite@,
                8 * (sprite@.len() as int),
            ),
    {
        let ghost w = self.width as int;
        let ghost h = self.height as int;
        let ghost g0 = self@;
        let ghost xi = x as int;
        let ghost yi = y as int;
        let mut collision = false;
        proof {
            assert(self@ =~~= drawn(g0, w, h, xi, yi, sprite@, 0));
        }
        let mut i: usize = 0;
        while i < sprite.len()
            invariant
                i <= sprite@.len(),
                self.wf(),
                self.width == w,
                self.height == h,
                w > 0,
                h > 0,
                xi == x,
                yi == y,
                self@ == drawn(g0, w, h, xi, yi, sprite@, 8 * i),
                collision == collides(g0, w, h, xi, yi, sprite@, 8 * i),
            decreases sprite@.len() - i,
        {
            let row: u8 = sprite[i];
            let r: usize = add_mod(y, i, self.height);
            let mut j: u8 = 0;
            while j < 8
                invariant
                    j <= 8,
                    i < sprite@.len(),
                    row == sprite@[i as int],
                    r == (y + i) % h,
                    self.wf(),
                    self.width == w,
                    self.height == h,
                    w > 0,
                    h > 0,
                    xi == x,
                    yi == y,
                    self@ == drawn(g0, w, h, xi, yi, sprite@, 8 * i + j),
                    collision == collides(g0, w, h, xi, yi, sprite@, 8 * i + j),
                decreases 8 - j,
            {
                let ghost k: int = 8 * i + j;
                let ghost before = self@;
                let ghost collided = collision;
                let bit: u8 = (row >> (7 - j)) & 1;
                let c: usize = add_mod(x, j as usize, self.width);
                proof {
                    assert(k / 8 == i && k % 8 == j);
                    assert(target_col(w, xi, k) == c);
                    assert(target_row(h, yi, k) == r);
                    assert((7 - k % 8) as u8 == (7 - j) as u8);
                    assert(sprite_bit(sprite@, k) == (bit == 1));
                    lemma_small_mod(c as nat, w as nat);
                    lemma_small_mod(r as nat, h as nat);
                }
                let mut lit: bool = false;
                if bit == 1 {
                    lit = self.toggle_pixel(c, r);
                    if lit {
                        collision = true;
                    }
                }
                proof {
                    assert(erases(g0, w, h, xi, yi, sprite@, k) == (bit == 1 && lit));
                    assert(collision == (collided || erases(g0, w, h, xi, yi, sprite@, k)));
                    assert(self@ =~~= drawn(g0, w, h, xi, yi, sprite@, k + 1));
                }
                j += 1;
            }
            i += 1;
        }
        self.dirty = true;
        collision
    }
}

} // verus!
