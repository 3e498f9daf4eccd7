//! A 1-bit raster stored row-major in a packed bit sequence.

use crate::bits::{
    bit_seq, bits_filled, bits_get, bits_len, bits_negate, bits_push, bits_same, bits_set, bits_with_capacity,
};
use bit_vec::BitVec;
use vstd::arithmetic::div_mod::{lemma_fundamental_div_mod, lemma_fundamental_div_mod_converse};
use vstd::arithmetic::mul::lemma_mul_is_commutative;
use vstd::prelude::*;
use vstd::std_specs::cmp::PartialEqSpecImpl;

verus! {

/// The mathematical value of a bitmap: its size and its bits, row by row.
pub struct Raster {
    pub w: nat,
    pub h: nat,
    pub bits: Seq<bool>,
}

impl Raster {
    /// The bit sequence has one entry per pixel.
    pub open spec fn wf(self) -> bool {
        self.bits.len() == self.w * self.h
    }

    /// Whether `(x, y)` names a pixel of the raster.
    pub open spec fn contains(self, x: int, y: int) -> bool {
        0 <= x < self.w && 0 <= y < self.h
    }

    /// The pixel in column `x` of row `y`.
    pub open spec fn pixel(self, x: int, y: int) -> bool
        recommends
            self.contains(x, y),
    {
        self.bits[y * self.w + x]
    }

    /// A raster of the given size with every pixel equal to `on`.
    pub open spec fn filled(w: nat, h: nat, on: bool) -> Raster {
        Raster { w, h, bits: Seq::new(w * h, |i: int| on) }
    }

    /// The `w` by `h` window whose top left corner is the pixel `(x, y)`.
    pub open spec fn crop(self, x: int, y: int, w: nat, h: nat) -> Raster {
        Raster {
            w,
            h,
            bits: Seq::new(w * h, |i: int| self.pixel(x + i % (w as int), y + i / (w as int))),
        }
    }

    /// The pixel `(x, y)` after `src` was drawn with its corner at `(ox, oy)`.
    ///
    /// Where `src` covers the pixel, an opaque draw takes the source pixel and
    /// a transparent one takes the logical OR; elsewhere the pixel stays.
    pub open spec fn blit_pixel(self, src: Raster, ox: int, oy: int, opaque: bool, x: int, y: int) -> bool {
        if src.contains(x - ox, y - oy) {
            if opaque {
                src.pixel(x - ox, y - oy)
            } else {
                self.pixel(x, y) || src.pixel(x - ox, y - oy)
            }
        } else {
            self.pixel(x, y)
        }
    }

    /// The raster after `src` was drawn with its corner at `(ox, oy)`.
    pub open spec fn blit(self, src: Raster, ox: int, oy: int, opaque: bool) -> Raster {
        Raster {
            w: self.w,
            h: self.h,
            bits: Seq::new(
                self.w * self.h,
                |i: int| self.blit_pixel(src, ox, oy, opaque, i % (self.w as int), i / (self.w as int)),
            ),
        }
    }

    /// The raster with every pixel flipped.
    pub open spec fn invert(self) -> Raster {
        Raster { w: self.w, h: self.h, bits: Seq::new(self.bits.len(), |i: int| !self.bits[i]) }
    }
}

/// A pixel inside a `w` by `h` raster has its row-major index inside `w * h`.
pub proof fn lemma_index_in_bounds(x: int, y: int, w: int, h: int)
    requires
        0 <= x < w,
        0 <= y < h,
    ensures
        0 <= y * w <= y * w + x < w * h,
        y * w + w <= w * h,
{
    assert(y * w >= 0) by (nonlinear_arith)
        requires
            y >= 0,
            w > 0,
    ;
    assert((y + 1) * w <= h * w) by (nonlinear_arith)
        requires
            y + 1 <= h,
            w > 0,
    ;
    assert((y + 1) * w == y * w + w) by (nonlinear_arith);
    assert(h * w == w * h) by (nonlinear_arith);
}

/// A window that is no wider and no taller than a raster has no more pixels.
pub proof fn lemma_window_fits(w: int, h: int, full_w: int, full_h: int)
    requires
        0 <= w <= full_w,
        0 <= h <= full_h,
    ensures
        0 <= w * h <= full_w * full_h,
{
    assert(0 <= w * h <= full_w * full_h) by (nonlinear_arith)
        requires
            0 <= w <= full_w,
            0 <= h <= full_h,
    ;
}

/// The row-major index of a pixel gives back its column and its row.
pub proof fn lemma_index_split(x: int, y: int, w: int)
    requires
        0 <= x < w,
    ensures
        (y * w + x) % w == x,
        (y * w + x) / w == y,
{
    lemma_fundamental_div_mod_converse(y * w + x, w, y, x);
}

/// Every index below `w * h` is the row-major index of a pixel of the raster.
pub proof fn lemma_index_join(i: int, w: int, h: int)
    requires
        0 <= i < w * h,
        0 <= w,
        0 <= h,
    ensures
        0 <= i % w < w,
        0 <= i / w < h,
        (i / w) * w + i % w == i,
{
    assert(w > 0) by (nonlinear_arith)
        requires
            0 <= i < w * h,
            0 <= w,
    ;
    lemma_fundamental_div_mod(i, w);
    lemma_mul_is_commutative(w, i / w);
    assert(0 <= i / w < h) by (nonlinear_arith)
        requires
            0 <= i < w * h,
            w > 0,
            i == (i / w) * w + i % w,
            0 <= i % w < w,
    ;
}

/// Two well-formed rasters of one size that agree on every pixel are equal.
pub proof fn lemma_raster_ext(a: Raster, b: Raster)
    requires
        a.wf(),
        b.wf(),
        a.w == b.w,
        a.h == b.h,
        forall|x: int, y: int| a.contains(x, y) ==> #[trigger] a.pixel(x, y) == b.pixel(x, y),
    ensures
        a == b,
{
    assert forall|i: int| 0 <= i < a.bits.len() implies a.bits[i] == b.bits[i] by {
        lemma_index_join(i, a.w as int, a.h as int);
        let x = i % (a.w as int);
        let y = i / (a.w as int);
        assert(a.contains(x, y));
        assert(a.pixel(x, y) == b.pixel(x, y));
    }
    assert(a.bits =~= b.bits);
}

/// The pixels of a cropped raster are the source's pixels, moved by the corner.
pub proof fn lemma_crop_pixel(s: Raster, x: int, y: int, w: nat, h: nat, i: int, j: int)
    requires
        0 <= i < w,
        0 <= j < h,
    ensures
        s.crop(x, y, w, h).wf(),
        s.crop(x, y, w, h).pixel(i, j) == s.pixel(x + i, y + j),
{
    lemma_index_in_bounds(i, j, w as int, h as int);
    lemma_index_split(i, j, w as int);
}

/// Each pixel of a drawn-on raster is what [`Raster::blit_pixel`] says.
pub proof fn lemma_blit_pixel(d: Raster, src: Raster, ox: int, oy: int, opaque: bool, x: int, y: int)
    requires
        d.contains(x, y),
    ensures
        d.blit(src, ox, oy, opaque).wf(),
        d.blit(src, ox, oy, opaque).pixel(x, y) == d.blit_pixel(src, ox, oy, opaque, x, y),
{
    lemma_index_in_bounds(x, y, d.w as int, d.h as int);
    lemma_index_split(x, y, d.w as int);
}

/// Cropping a bitmap to its own full rectangle gives the bitmap back.
pub proof fn lemma_crop_full(b: Raster)
    requires
        b.wf(),
    ensures
        b.crop(0, 0, b.w, b.h) == b,
{
    let c = b.crop(0, 0, b.w, b.h);
    assert forall|x: int, y: int| c.contains(x, y) implies #[trigger] c.pixel(x, y) == b.pixel(x, y) by {
        lemma_crop_pixel(b, 0, 0, b.w, b.h, x, y);
    }
    lemma_raster_ext(c, b);
}

/// A drawing changes no pixel that the source, placed at its corner, does not
/// cover, and it keeps the destination's size.
pub proof fn lemma_blit_stays_inside(d: Raster, src: Raster, ox: int, oy: int, opaque: bool, x: int, y: int)
    requires
        d.contains(x, y),
        !src.contains(x - ox, y - oy),
    ensures
        d.blit(src, ox, oy, opaque).w == d.w,
        d.blit(src, ox, oy, opaque).h == d.h,
        d.blit(src, ox, oy, opaque).pixel(x, y) == d.pixel(x, y),
{
    lemma_blit_pixel(d, src, ox, oy, opaque, x, y);
}

/// Drawing the same source at the same place a second time with logical OR
/// changes nothing.
pub proof fn lemma_blit_or_idempotent(d: Raster, src: Raster, ox: int, oy: int)
    requires
        d.wf(),
    ensures
        d.blit(src, ox, oy, false).blit(src, ox, oy, false) == d.blit(src, ox, oy, false),
{
    let once = d.blit(src, ox, oy, false);
    let twice = once.blit(src, ox, oy, false);
    assert forall|x: int, y: int| twice.contains(x, y) implies #[trigger] twice.pixel(x, y) == once.pixel(
        x,
        y,
    ) by {
        lemma_blit_pixel(d, src, ox, oy, false, x, y);
        lemma_blit_pixel(once, src, ox, oy, false, x, y);
    }
    lemma_raster_ext(twice, once);
}

/// After an opaque drawing every destination pixel that the source covers
/// equals the source pixel that lies on it.
pub proof fn lemma_blit_opaque_overwrites(d: Raster, src: Raster, ox: int, oy: int, x: int, y: int)
    requires
        d.contains(x, y),
        src.contains(x - ox, y - oy),
    ensures
        d.blit(src, ox, oy, true).pixel(x, y) == src.pixel(x - ox, y - oy),
{
    lemma_blit_pixel(d, src, ox, oy, true, x, y);
}

/// A 1-bit image of `w` columns and `h` rows.
pub struct Bitmap {
    pub w: usize,
    pub h: usize,
    pub data: BitVec,
}

impl View for Bitmap {
    type V = Raster;

    open spec fn view(&self) -> Raster {
        Raster { w: self.w as nat, h: self.h as nat, bits: bit_seq(self.data) }
    }
}

/// How far a source placed at offset `v` starts before the destination's edge.
fn clipped_before(v: isize) -> (r: usize)
    ensures
        r == if v < 0 {
            -v
        } else {
            0
        },
{
    if v < 0 {
        let below: isize = -(v + 1);
        (below as usize) + 1
    } else {
        0
    }
}

/// Where a source placed at offset `v` starts inside the destination.
fn clipped_start(v: isize) -> (r: usize)
    ensures
        r == if v > 0 {
            v
        } else {
            0
        },
{
    if v > 0 {
        v as usize
    } else {
        0
    }
}

/// The smaller of two lengths.
fn shorter(a: usize, b: usize) -> (r: usize)
    ensures
        r == if a <= b {
            a
        } else {
            b
        },
{
    if a <= b {
        a
    } else {
        b
    }
}

impl Bitmap {
    /// The bitmap holds exactly `w * h` bits, a number that fits a `usize`.
    pub open spec fn wf(&self) -> bool {
        &&& self@.wf()
        &&& self.w * self.h <= usize::MAX
    }

    /// Whether the bitmap holds exactly `w * h` bits.
    pub fn is_valid(&self) -> (r: bool)
        ensures
            r == self.wf(),
    {
        let held = bits_len(&self.data);
        match self.w.checked_mul(self.h) {
            Some(count) => count == held,
            None => false,
        }
    }

    /// A bitmap of `w` by `h` pixels, all set to `on`.
    pub fn new(w: usize, h: usize, on: bool) -> (r: Bitmap)
        requires
            w * h <= usize::MAX,
        ensures
            r.wf(),
            r@ == Raster::filled(w as nat, h as nat, on),
    {
        let data = bits_filled(w * h, on);
        Bitmap { w, h, data }
    }

    /// The pixel in column `x` of row `y`.
    pub fn get(&self, x: usize, y: usize) -> (r: bool)
        requires
            self.wf(),
            x < self.w,
            y < self.h,
        ensures
            r == self@.pixel(x as int, y as int),
    {
        proof {
            lemma_index_in_bounds(x as int, y as int, self.w as int, self.h as int);
        }
        bits_get(&self.data, y * self.w + x)
    }

    /// Sets the pixel in column `x` of row `y` and leaves every other pixel.
    pub fn set(&mut self, x: usize, y: usize, on: bool)
        requires
            old(self).wf(),
            x < old(self).w,
            y < old(self).h,
        ensures
            final(self).wf(),
            final(self).w == old(self).w,
            final(self).h == old(self).h,
            final(self)@.bits == old(self)@.bits.update(y * old(self).w + x, on),
            forall|px: int, py: int|
                old(self)@.contains(px, py) ==> #[trigger] final(self)@.pixel(px, py) == (if px == x && py
                    == y {
                    on
                } else {
                    old(self)@.pixel(px, py)
                }),
    {
        proof {
            lemma_index_in_bounds(x as int, y as int, self.w as int, self.h as int);
        }
        let ghost before = self@;
        bits_set(&mut self.data, y * self.w + x, on);
        proof {
            assert forall|px: int, py: int| before.contains(px, py) implies #[trigger] self@.pixel(px, py) == (
            if px == x && py == y {
                on
            } else {
                before.pixel(px, py)
            }) by {
                lemma_index_in_bounds(px, py, before.w as int, before.h as int);
                lemma_index_split(px, py, before.w as int);
                lemma_index_split(x as int, y as int, before.w as int);
            }
        }
    }

    /// The `w` by `h` window of the bitmap whose top left corner is `(x, y)`.
    ///
    /// The window has to lie inside the bitmap.
    pub fn crop(&self, x: usize, y: usize, w: usize, h: usize) -> (r: Bitmap)
        requires
            self.wf(),
            x <= self.w,
            y <= self.h,
            w <= self.w - x,
            h <= self.h - y,
        ensures
            r.wf(),
            r@ == self@.crop(x as int, y as int, w as nat, h as nat),
            x == 0 && y == 0 && w == self.w && h == self.h ==> r@ == self@,
    {
        proof {
            lemma_window_fits(w as int, h as int, self.w as int, self.h as int);
        }
        let ghost want = self@.crop(x as int, y as int, w as nat, h as nat);
        let mut data = bits_with_capacity(w * h);
        let mut j: usize = 0;
        while j < h
            invariant
                self.wf(),
                x + w <= self.w,
                y + h <= self.h,
                w * h <= usize::MAX,
                j <= h,
                want == self@.crop(x as int, y as int, w as nat, h as nat),
                bit_seq(data).len() == j * w,
                forall|i: int| 0 <= i < j * w ==> #[trigger] bit_seq(data)[i] == want.bits[i],
            decreases h - j,
        {
            let mut i: usize = 0;
            while i < w
                invariant
                    self.wf(),
                    x + w <= self.w,
                    y + h <= self.h,
                    w * h <= usize::MAX,
                    j < h,
                    i <= w,
                    want == self@.crop(x as int, y as int, w as nat, h as nat),
                    bit_seq(data).len() == j * w + i,
                    forall|k: int| 0 <= k < j * w + i ==> #[trigger] bit_seq(data)[k] == want.bits[k],
                decreases w - i,
            {
                proof {
                    lemma_index_in_bounds(x + i, y + j, self.w as int, self.h as int);
                    lemma_index_in_bounds(i as int, j as int, w as int, h as int);
                    lemma_index_split(i as int, j as int, w as int);
                }
                let bit = bits_get(&self.data, (y + j) * self.w + (x + i));
                bits_push(&mut data, bit);
                i += 1;
            }
            proof {
                assert((j + 1) * w == j * w + w) by (nonlinear_arith);
            }
            j += 1;
        }
        proof {
            assert(h * w == w * h) by (nonlinear_arith);
            assert(bit_seq(data) =~= want.bits);
            if x == 0 && y == 0 && w == self.w && h == self.h {
                lemma_crop_full(self@);
            }
        }
        Bitmap { w, h, data }
    }

    /// Draws `other` onto this bitmap with its top left corner at `(x, y)`.
    ///
    /// Only the part of `other` that falls inside this bitmap is drawn, so any
    /// offset is accepted and the size never changes. An opaque draw copies the
    /// source pixels; a transparent one sets a pixel where either is set.
    #[verifier::rlimit(50)]
    pub fn blit(&mut self, other: &Bitmap, x: isize, y: isize, opaque: bool)
        requires
            old(self).wf(),
            other.wf(),
        ensures
            final(self).wf(),
            final(self)@ == old(self)@.blit(other@, x as int, y as int, opaque),
    {
        let ghost before = self@;
        let ghost src = other@;
        let ghost want = before.blit(src, x as int, y as int, opaque);
        let src_x_start = clipped_before(x);
        let src_y_start = clipped_before(y);
        let dst_x_start = clipped_start(x);
        let dst_y_start = clipped_start(y);
        let overlap_w = shorter(other.w.saturating_sub(src_x_start), self.w.saturating_sub(dst_x_start));
        let overlap_h = shorter(other.h.saturating_sub(src_y_start), self.h.saturating_sub(dst_y_start));
        if overlap_w == 0 || overlap_h == 0 {
            proof {
                assert forall|px: int, py: int| want.contains(px, py) implies #[trigger] want.pixel(px, py)
                    == before.pixel(px, py) by {
                    lemma_blit_pixel(before, src, x as int, y as int, opaque, px, py);
                }
                lemma_raster_ext(want, before);
            }
            return ;
        }
        let mut j: usize = 0;
        while j < overlap_h
            invariant
                other.wf(),
                self.wf(),
                self.w == before.w,
                self.h == before.h,
                src == other@,
                j <= overlap_h,
                dst_x_start - src_x_start == x,
                dst_y_start - src_y_start == y,
                src_x_start == 0 || dst_x_start == 0,
                src_y_start == 0 || dst_y_start == 0,
                src_x_start + overlap_w <= other.w,
                src_y_start + overlap_h <= other.h,
                dst_x_start + overlap_w <= self.w,
                dst_y_start + overlap_h <= self.h,
                src_x_start + overlap_w == other.w || dst_x_start + overlap_w == self.w,
                src_y_start + overlap_h == other.h || dst_y_start + overlap_h == self.h,
                forall|px: int, py: int|
                    before.contains(px, py) ==> #[trigger] self@.pixel(px, py) == (if src.contains(px - x, py - y)
                        && py < dst_y_start + j {
                        before.blit_pixel(src, x as int, y as int, opaque, px, py)
                    } else {
                        before.pixel(px, py)
                    }),
            decreases overlap_h - j,
        {
            let oy = src_y_start + j;
            let sy = dst_y_start + j;
            let mut k: usize = 0;
            while k < overlap_w
                invariant
                    other.wf(),
                    self.wf(),
                    self.w == before.w,
                    self.h == before.h,
                    src == other@,
                    j < overlap_h,
                    k <= overlap_w,
                    oy == src_y_start + j,
                    sy == dst_y_start + j,
                    dst_x_start - src_x_start == x,
                    dst_y_start - src_y_start == y,
                    src_x_start == 0 || dst_x_start == 0,
                    src_y_start == 0 || dst_y_start == 0,
                    src_x_start + overlap_w <= other.w,
                    src_y_start + overlap_h <= other.h,
                    dst_x_start + overlap_w <= self.w,
                    dst_y_start + overlap_h <= self.h,
                    src_x_start + overlap_w == other.w || dst_x_start + overlap_w == self.w,
                    src_y_start + overlap_h == other.h || dst_y_start + overlap_h == self.h,
                    forall|px: int, py: int|
                        before.contains(px, py) ==> #[trigger] self@.pixel(px, py) == (if src.contains(
                            px - x,
                            py - y,
                        ) && (py < sy || (py == sy && px < dst_x_start + k)) {
                            before.blit_pixel(src, x as int, y as int, opaque, px, py)
                        } else {
                            before.pixel(px, py)
                        }),
                decreases overlap_w - k,
            {
                let ox = src_x_start + k;
                let sx = dst_x_start + k;
                proof {
                    lemma_index_in_bounds(ox as int, oy as int, other.w as int, other.h as int);
                }
                let bit = other.get(ox, oy);
                if opaque {
                    self.set(sx, sy, bit);
                } else {
                    let cur = self.get(sx, sy);
                    self.set(sx, sy, cur || bit);
                }
                k += 1;
            }
            j += 1;
        }
        proof {
            assert forall|px: int, py: int| want.contains(px, py) implies #[trigger] want.pixel(px, py)
                == self@.pixel(px, py) by {
                lemma_blit_pixel(before, src, x as int, y as int, opaque, px, py);
            }
            lemma_raster_ext(want, self@);
        }
    }

    /// Whether two bitmaps have the same size and the same pixels.
    pub fn equals(&self, other: &Bitmap) -> (r: bool)
        ensures
            r == (self@ == other@),
    {
        self.w == other.w && self.h == other.h && bits_same(&self.data, &other.data)
    }

    /// Flips every pixel of the bitmap.
    pub fn invert(&mut self)
        requires
            old(self).wf(),
        ensures
            final(self).wf(),
            final(self)@ == old(self)@.invert(),
    {
        bits_negate(&mut self.data);
    }
}

impl PartialEq for Bitmap {
    /// Two bitmaps are equal when their sizes and all their bits agree.
    fn eq(&self, other: &Bitmap) -> (r: bool) {
        self.equals(other)
    }
}

impl PartialEqSpecImpl for Bitmap {
    open spec fn obeys_eq_spec() -> bool {
        true
    }

    open spec fn eq_spec(&self, other: &Bitmap) -> bool {
        self@ == other@
    }
}

} // verus!
