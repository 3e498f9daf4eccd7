//! Text drawn with a bitmap font: lines, their widths and their pictures.

use crate::bitmap::{lemma_blit_pixel, lemma_raster_ext, Bitmap, Raster};
use vstd::prelude::*;
use vstd::string::StrSliceExecFns;

verus! {

/// A box in a font's own coordinates: its size, and the offset of its lower
/// left corner from the origin on the baseline.
#[derive(Clone, Copy, Debug, PartialEq, Eq, Structural)]
pub struct FontBounds {
    pub width: u32,
    pub height: u32,
    pub x: i32,
    pub y: i32,
}

/// One character of a bitmap font.
pub struct Glyph {
    /// The character that the glyph stands for.
    pub codepoint: char,
    /// How far the glyph moves the pen, where the glyph says so itself.
    pub device_width: Option<u32>,
    /// The glyph's box.
    pub bounds: FontBounds,
    /// The glyph's pixels, top row first.
    pub map: Bitmap,
}

/// A bitmap font: the box that lines are laid out in, and the glyphs.
pub struct BitmapFont {
    pub bounds: FontBounds,
    pub glyphs: Vec<Glyph>,
}

/// The position of the first glyph for `ch`, if the font has one.
pub open spec fn glyph_index(glyphs: Seq<Glyph>, ch: char) -> Option<int>
    decreases glyphs.len(),
{
    if glyphs.len() == 0 {
        None
    } else {
        match glyph_index(glyphs.drop_last(), ch) {
            Some(i) => Some(i),
            None => if glyphs.last().codepoint == ch {
                Some(glyphs.len() - 1)
            } else {
                None
            },
        }
    }
}

/// How far a character moves the pen: the width its glyph gives, or the
/// width of the font's box where the glyph gives none; nothing where the font
/// has no glyph for it.
pub open spec fn advance(font: BitmapFont, ch: char) -> int {
    match glyph_index(font.glyphs@, ch) {
        Some(i) => match font.glyphs[i].device_width {
            Some(w) => w as int,
            None => font.bounds.width as int,
        },
        None => 0,
    }
}

/// The width of a line: the sum of what its characters move the pen.
pub open spec fn line_width(font: BitmapFont, line: Seq<char>) -> int
    decreases line.len(),
{
    if line.len() == 0 {
        0
    } else {
        line_width(font, line.drop_last()) + advance(font, line.last())
    }
}

/// The lines of a text: carriage returns are dropped, and every line feed
/// ends a line. A text without line feed is one line, and so is the empty
/// text.
pub open spec fn lines_of(text: Seq<char>) -> Seq<Seq<char>>
    decreases text.len(),
{
    if text.len() == 0 {
        seq![Seq::<char>::empty()]
    } else {
        let before = lines_of(text.drop_last());
        let c = text.last();
        if c == '\n' {
            before.push(Seq::<char>::empty())
        } else if c == '\r' {
            before
        } else {
            before.drop_last().push(before.last().push(c))
        }
    }
}

/// The picture of a line after its first `n` characters were drawn on an
/// empty picture `width` wide and as high as the font's box.
///
/// Each glyph is drawn with logical OR. Its left edge is where the pen
/// stands, moved by the glyph's own offset; its top edge is as far above the
/// baseline as its box says. What falls outside the picture is cut off.
pub open spec fn drawn_line(font: BitmapFont, line: Seq<char>, width: nat, n: int) -> Raster
    decreases n,
{
    if n <= 0 {
        Raster::filled(width, font.bounds.height as nat, false)
    } else {
        let under = drawn_line(font, line, width, n - 1);
        match glyph_index(font.glyphs@, line[n - 1]) {
            Some(i) => {
                let glyph = font.glyphs[i];
                under.blit(
                    glyph.map@,
                    line_width(font, line.take(n - 1)) + glyph.bounds.x,
                    font.bounds.height + font.bounds.y - glyph.bounds.height - glyph.bounds.y,
                    false,
                )
            },
            None => under,
        }
    }
}

/// The picture of a line: as wide as the line and as high as the font's box,
/// with every glyph drawn at its place.
pub open spec fn line_raster(font: BitmapFont, line: Seq<char>) -> Raster {
    drawn_line(font, line, line_width(font, line) as nat, line.len() as int)
}

/// The lines as sequences of characters.
pub open spec fn line_seqs(lines: Seq<Vec<char>>) -> Seq<Seq<char>> {
    lines.map_values(|l: Vec<char>| l@)
}

/// The width of a line is never negative, and grows with the line.
pub proof fn lemma_line_width_grows(font: BitmapFont, line: Seq<char>, n: int)
    requires
        0 <= n <= line.len(),
    ensures
        0 <= line_width(font, line.take(n)) <= line_width(font, line),
    decreases line.len() - n,
{
    if n == line.len() {
        assert(line.take(n) =~= line);
        lemma_line_width_nonnegative(font, line);
    } else {
        lemma_line_width_grows(font, line, n + 1);
        assert(line.take(n + 1).drop_last() =~= line.take(n));
        lemma_line_width_nonnegative(font, line.take(n));
    }
}

/// The width of a line is never negative.
pub proof fn lemma_line_width_nonnegative(font: BitmapFont, line: Seq<char>)
    ensures
        0 <= line_width(font, line),
    decreases line.len(),
{
    if line.len() > 0 {
        lemma_line_width_nonnegative(font, line.drop_last());
    }
}

impl BitmapFont {
    /// Every glyph's pixels are a well-formed bitmap.
    pub open spec fn wf(&self) -> bool {
        forall|i: int| 0 <= i < self.glyphs.len() ==> (#[trigger] self.glyphs[i]).map.wf()
    }

    /// Whether every glyph's pixels are a well-formed bitmap.
    pub fn is_valid(&self) -> (r: bool)
        ensures
            r == self.wf(),
    {
        let mut i: usize = 0;
        while i < self.glyphs.len()
            invariant
                i <= self.glyphs.len(),
                forall|k: int| 0 <= k < i ==> (#[trigger] self.glyphs[k]).map.wf(),
            decreases self.glyphs.len() - i,
        {
            if !self.glyphs[i].map.is_valid() {
                assert(!self.glyphs[i as int].map.wf());
                return false;
            }
            i += 1;
        }
        true
    }

    /// Whether a line can be drawn: its width fits a `usize`, and so does the
    /// number of pixels of its picture.
    pub fn line_fits(&self, line: &Vec<char>) -> (r: bool)
        ensures
            r == (line_width(*self, line@) <= usize::MAX && line_width(*self, line@) * self.bounds.height
                <= usize::MAX),
    {
        let mut cursor: usize = 0;
        let mut i: usize = 0;
        while i < line.len()
            invariant
                i <= line.len(),
                cursor == line_width(*self, line@.take(i as int)),
            decreases line.len() - i,
        {
            proof {
                assert(line@.take(i + 1).drop_last() =~= line@.take(i as int));
                lemma_line_width_grows(*self, line@, i + 1);
            }
            match cursor.checked_add(self.char_advance(line[i]) as usize) {
                Some(next) => {
                    cursor = next;
                },
                None => {
                    proof {
                        lemma_line_width_nonnegative(*self, line@);
                        assert(line_width(*self, line@) * self.bounds.height >= 0) by (nonlinear_arith)
                            requires
                                line_width(*self, line@) >= 0,
                                self.bounds.height >= 0,
                        ;
                    }
                    return false;
                },
            }
            i += 1;
        }
        proof {
            assert(line@.take(line.len() as int) =~= line@);
        }
        cursor.checked_mul(self.bounds.height as usize).is_some()
    }

    /// The height of a line: the height of the font's box.
    pub fn line_height(&self) -> (r: usize)
        ensures
            r == self.bounds.height,
    {
        self.bounds.height as usize
    }

    /// Looks up the glyph for a character.
    pub fn find_glyph(&self, ch: char) -> (r: Option<usize>)
        ensures
            match r {
                Some(i) => glyph_index(self.glyphs@, ch) == Some(i as int) && i < self.glyphs.len(),
                None => glyph_index(self.glyphs@, ch).is_none(),
            },
    {
        let mut found: Option<usize> = None;
        let mut i: usize = 0;
        while i < self.glyphs.len()
            invariant
                i <= self.glyphs.len(),
                match found {
                    Some(k) => glyph_index(self.glyphs@.take(i as int), ch) == Some(k as int) && k < i,
                    None => glyph_index(self.glyphs@.take(i as int), ch).is_none(),
                },
            decreases self.glyphs.len() - i,
        {
            proof {
                assert(self.glyphs@.take(i + 1).drop_last() =~= self.glyphs@.take(i as int));
            }
            if found.is_none() && self.glyphs[i].codepoint == ch {
                found = Some(i);
            }
            i += 1;
        }
        proof {
            assert(self.glyphs@.take(self.glyphs.len() as int) =~= self.glyphs@);
        }
        found
    }

    /// How far a character moves the pen.
    pub fn char_advance(&self, ch: char) -> (r: u32)
        ensures
            r == advance(*self, ch),
    {
        match self.find_glyph(ch) {
            Some(i) => match self.glyphs[i].device_width {
                Some(w) => w,
                None => self.bounds.width,
            },
            None => 0,
        }
    }

    /// The width of one line in pixels. The width has to fit a `usize`.
    pub fn measure_line(&self, line: &Vec<char>) -> (r: usize)
        requires
            line_width(*self, line@) <= usize::MAX,
        ensures
            r == line_width(*self, line@),
    {
        let mut cursor: usize = 0;
        let mut i: usize = 0;
        while i < line.len()
            invariant
                i <= line.len(),
                line_width(*self, line@) <= usize::MAX,
                cursor == line_width(*self, line@.take(i as int)),
            decreases line.len() - i,
        {
            proof {
                assert(line@.take(i + 1).drop_last() =~= line@.take(i as int));
                lemma_line_width_grows(*self, line@, i + 1);
            }
            cursor = cursor + self.char_advance(line[i]) as usize;
            i += 1;
        }
        proof {
            assert(line@.take(line.len() as int) =~= line@);
        }
        cursor
    }

    /// The widths of the lines of a text, one for each line in order. Each
    /// width has to fit a `usize`.
    pub fn measure_line_widths(&self, text: &str) -> (widths: Vec<usize>)
        requires
            forall|k: int|
                0 <= k < lines_of(text@).len() ==> line_width(*self, #[trigger] lines_of(text@)[k]) <= usize::MAX,
        ensures
            widths.len() == lines_of(text@).len(),
            forall|k: int| 0 <= k < widths.len() ==> #[trigger] widths[k] == line_width(*self, lines_of(text@)[k]),
    {
        let lines = split_lines(text);
        let mut widths: Vec<usize> = Vec::with_capacity(lines.len());
        let mut k: usize = 0;
        while k < lines.len()
            invariant
                k <= lines.len(),
                line_seqs(lines@) == lines_of(text@),
                forall|j: int|
                    0 <= j < lines_of(text@).len() ==> line_width(*self, #[trigger] lines_of(text@)[j])
                        <= usize::MAX,
                widths.len() == k,
                forall|j: int| 0 <= j < k ==> #[trigger] widths[j] == line_width(*self, lines_of(text@)[j]),
            decreases lines.len() - k,
        {
            proof {
                assert(line_seqs(lines@)[k as int] == lines@[k as int]@);
            }
            let w = self.measure_line(&lines[k]);
            widths.push(w);
            k += 1;
        }
        widths
    }
}

/// Splits a text into its lines; see [`lines_of`].
pub fn split_lines(text: &str) -> (lines: Vec<Vec<char>>)
    ensures
        line_seqs(lines@) == lines_of(text@),
        lines.len() >= 1,
{
    let count = text.unicode_len();
    let mut done: Vec<Vec<char>> = Vec::new();
    let mut current: Vec<char> = Vec::new();
    let mut i: usize = 0;
    while i < count
        invariant
            i <= count,
            count == text@.len(),
            line_seqs(done@).push(current@) == lines_of(text@.take(i as int)),
        decreases count - i,
    {
        proof {
            assert(text@.take(i + 1).drop_last() =~= text@.take(i as int));
        }
        let ghost before = lines_of(text@.take(i as int));
        let c = text.get_char(i);
        if c == '\n' {
            let ghost ended = current@;
            done.push(current);
            current = Vec::new();
            proof {
                assert(line_seqs(done@) =~= before);
                assert(line_seqs(done@).push(current@) =~= before.push(Seq::<char>::empty()));
            }
        } else if c != '\r' {
            current.push(c);
            proof {
                assert(before.drop_last() =~= line_seqs(done@));
                assert(line_seqs(done@).push(current@) =~= before.drop_last().push(before.last().push(c)));
            }
        }
        i += 1;
    }
    proof {
        assert(text@.take(count as int) =~= text@);
    }
    let ghost all = line_seqs(done@).push(current@);
    done.push(current);
    proof {
        assert(line_seqs(done@) =~= all);
    }
    done
}

/// How far from the origin a glyph may be put, in either direction: more than
/// any sum of a width or a height and the offsets of a font's boxes.
const STAMP_REACH: i128 = 0x1_0000_0000_0000_0000_0000;

/// Draws `glyph` onto `bitmap` with logical OR, its top left corner at
/// `(x, y)`. What falls outside the bitmap is cut off.
#[verifier::rlimit(50)]
fn stamp(bitmap: &mut Bitmap, glyph: &Bitmap, x: i128, y: i128)
    requires
        old(bitmap).wf(),
        glyph.wf(),
        -STAMP_REACH <= x <= STAMP_REACH,
        -STAMP_REACH <= y <= STAMP_REACH,
    ensures
        final(bitmap).wf(),
        final(bitmap)@ == old(bitmap)@.blit(glyph@, x as int, y as int, false),
{
    let ghost before = bitmap@;
    let ghost src = glyph@;
    let ghost want = before.blit(src, x as int, y as int, false);
    let mut gy: usize = 0;
    while gy < glyph.h
        invariant
            glyph.wf(),
            bitmap.wf(),
            bitmap.w == before.w,
            bitmap.h == before.h,
            src == glyph@,
            gy <= glyph.h,
            -STAMP_REACH <= x <= STAMP_REACH,
            -STAMP_REACH <= y <= STAMP_REACH,
            forall|px: int, py: int|
                before.contains(px, py) ==> #[trigger] bitmap@.pixel(px, py) == (if src.contains(px - x, py - y)
                    && py - y < gy {
                    before.blit_pixel(src, x as int, y as int, false, px, py)
                } else {
                    before.pixel(px, py)
                }),
        decreases glyph.h - gy,
    {
        let mut gx: usize = 0;
        while gx < glyph.w
            invariant
                glyph.wf(),
                bitmap.wf(),
                bitmap.w == before.w,
                bitmap.h == before.h,
                src == glyph@,
                gy < glyph.h,
                gx <= glyph.w,
                -STAMP_REACH <= x <= STAMP_REACH,
                -STAMP_REACH <= y <= STAMP_REACH,
                forall|px: int, py: int|
                    before.contains(px, py) ==> #[trigger] bitmap@.pixel(px, py) == (if src.contains(
                        px - x,
                        py - y,
                    ) && (py - y < gy || (py - y == gy && px - x < gx)) {
                        before.blit_pixel(src, x as int, y as int, false, px, py)
                    } else {
                        before.pixel(px, py)
                    }),
            decreases glyph.w - gx,
        {
            let px: i128 = x + gx as i128;
            let py: i128 = y + gy as i128;
            if glyph.get(gx, gy) && 0 <= px && px < bitmap.w as i128 && 0 <= py && py < bitmap.h as i128 {
                bitmap.set(px as usize, py as usize, true);
            }
            gx += 1;
        }
        gy += 1;
    }
    proof {
        assert forall|px: int, py: int| want.contains(px, py) implies #[trigger] want.pixel(px, py) == bitmap@.pixel(
            px,
            py,
        ) by {
            lemma_blit_pixel(before, src, x as int, y as int, false, px, py);
        }
        lemma_raster_ext(want, bitmap@);
    }
}

impl BitmapFont {
    /// Draws one line of text.
    ///
    /// The picture is as wide as the line and as high as the font's box; an
    /// empty line gives a picture without columns. The number of pixels has
    /// to fit a `usize`.
    pub fn render_line(&self, line: &Vec<char>) -> (bitmap: Bitmap)
        requires
            self.wf(),
            line_width(*self, line@) * self.bounds.height <= usize::MAX,
            line_width(*self, line@) <= usize::MAX,
        ensures
            bitmap.wf(),
            bitmap@ == line_raster(*self, line@),
    {
        let line_h = self.line_height();
        let line_w = self.measure_line(line);
        let mut bitmap = Bitmap::new(line_w, line_h, false);
        let baseline: i128 = self.bounds.height as i128 + self.bounds.y as i128;
        let mut cursor: usize = 0;
        let mut i: usize = 0;
        while i < line.len()
            invariant
                self.wf(),
                i <= line.len(),
                line_w == line_width(*self, line@),
                baseline == self.bounds.height + self.bounds.y,
                cursor == line_width(*self, line@.take(i as int)),
                bitmap.wf(),
                bitmap@ == drawn_line(*self, line@, line_w as nat, i as int),
            decreases line.len() - i,
        {
            proof {
                assert(line@.take(i + 1).drop_last() =~= line@.take(i as int));
                lemma_line_width_grows(*self, line@, i + 1);
            }
            match self.find_glyph(line[i]) {
                Some(g) => {
                    let glyph = &self.glyphs[g];
                    let x: i128 = cursor as i128 + glyph.bounds.x as i128;
                    let y: i128 = baseline - glyph.bounds.height as i128 - glyph.bounds.y as i128;
                    stamp(&mut bitmap, &glyph.map, x, y);
                },
                None => {},
            }
            cursor = cursor + self.char_advance(line[i]) as usize;
            i += 1;
        }
        bitmap
    }

    /// Draws the lines of a text, one picture for each line in order; see
    /// [`lines_of`] and [`line_raster`]. The number of pixels of each picture
    /// has to fit a `usize`.
    pub fn render_lines(&self, text: &str) -> (bitmaps: Vec<Bitmap>)
        requires
            self.wf(),
            forall|k: int|
                0 <= k < lines_of(text@).len() ==> line_width(*self, #[trigger] lines_of(text@)[k])
                    * self.bounds.height <= usize::MAX && line_width(*self, lines_of(text@)[k]) <= usize::MAX,
        ensures
            bitmaps.len() == lines_of(text@).len(),
            forall|k: int|
                0 <= k < bitmaps.len() ==> (#[trigger] bitmaps[k]).wf() && bitmaps[k]@ == line_raster(
                    *self,
                    lines_of(text@)[k],
                ),
    {
        let lines = split_lines(text);
        let mut bitmaps: Vec<Bitmap> = Vec::with_capacity(lines.len());
        let mut k: usize = 0;
        while k < lines.len()
            invariant
                self.wf(),
                k <= lines.len(),
                line_seqs(lines@) == lines_of(text@),
                forall|j: int|
                    0 <= j < lines_of(text@).len() ==> line_width(*self, #[trigger] lines_of(text@)[j])
                        * self.bounds.height <= usize::MAX && line_width(*self, lines_of(text@)[j])
                        <= usize::MAX,
                bitmaps.len() == k,
                forall|j: int|
                    0 <= j < k ==> (#[trigger] bitmaps[j]).wf() && bitmaps[j]@ == line_raster(
                        *self,
                        lines_of(text@)[j],
                    ),
            decreases lines.len() - k,
        {
            proof {
                assert(line_seqs(lines@)[k as int] == lines@[k as int]@);
            }
            let bitmap = self.render_line(&lines[k]);
            bitmaps.push(bitmap);
            k += 1;
        }
        bitmaps
    }
}

/// The box of pixels that a glyph of a vector font covers, in the line's
/// coordinates: `min` is the first column and row, `max` the last.
#[derive(Clone, Copy, Debug, PartialEq, Eq, Structural)]
pub struct PixelBox {
    pub min_x: i32,
    pub min_y: i32,
    pub max_x: i32,
    pub max_y: i32,
}

/// The size of a line of a vector font and where its origin lies in it.
#[derive(Clone, Copy, Debug, PartialEq, Eq, Structural)]
pub struct LineExtent {
    /// How far the leftmost glyph reaches to the left of the origin.
    pub w_offset: i64,
    /// How far the highest glyph reaches above the origin.
    pub h_offset: i64,
    /// The width of the line in pixels.
    pub w: i64,
    /// The height of the line in pixels.
    pub h: i64,
}

/// Where the pixel in column `x` and row `y` of a glyph lies in its line's
/// picture: the glyph's box starts at `glyph_box.min` in the line's
/// coordinates, and the line's origin lies `w_offset` columns and `h_offset`
/// rows inside the picture.
pub open spec fn glyph_pixel_spec(extent: LineExtent, glyph_box: PixelBox, x: u32, y: u32) -> (int, int) {
    (x + extent.w_offset + glyph_box.min_x, y + extent.h_offset + glyph_box.min_y)
}

/// Where the pixel in column `x` and row `y` of a glyph lies in its line's
/// picture, if it lies in it; see [`glyph_pixel_spec`].
pub fn glyph_pixel(extent: LineExtent, glyph_box: PixelBox, x: u32, y: u32) -> (r: Option<(usize, usize)>)
    ensures
        ({
            let (px, py) = glyph_pixel_spec(extent, glyph_box, x, y);
            if 0 <= px < extent.w && 0 <= py < extent.h && px <= usize::MAX && py <= usize::MAX {
                r == Some((px as usize, py as usize))
            } else {
                r is None
            }
        }),
{
    let px: i128 = x as i128 + extent.w_offset as i128 + glyph_box.min_x as i128;
    let py: i128 = y as i128 + extent.h_offset as i128 + glyph_box.min_y as i128;
    if 0 <= px && px < extent.w as i128 && 0 <= py && py < extent.h as i128 && px <= usize::MAX as i128 && py
        <= usize::MAX as i128 {
        Some((px as usize, py as usize))
    } else {
        None
    }
}

/// The largest of zero and `f` over the first `n` boxes.
pub open spec fn reach(boxes: Seq<PixelBox>, f: spec_fn(PixelBox) -> int, n: int) -> int
    decreases n,
{
    if n <= 0 {
        0
    } else {
        let rest = reach(boxes, f, n - 1);
        if f(boxes[n - 1]) > rest {
            f(boxes[n - 1])
        } else {
            rest
        }
    }
}

/// The tight size of a line whose glyphs cover `boxes`: from the leftmost
/// column to the rightmost and from the highest row to the lowest, where the
/// origin always counts as covered.
pub open spec fn line_extent_spec(boxes: Seq<PixelBox>) -> LineExtent {
    let n = boxes.len() as int;
    let left = reach(boxes, |b: PixelBox| -(b.min_x as int), n);
    let up = reach(boxes, |b: PixelBox| -(b.min_y as int), n);
    let right = reach(boxes, |b: PixelBox| b.max_x + 1, n);
    let down = reach(boxes, |b: PixelBox| b.max_y + 1, n);
    LineExtent { w_offset: left as i64, h_offset: up as i64, w: (right + left) as i64, h: (down + up) as i64 }
}

/// The size of a line of a vector font from the boxes of its glyphs.
pub fn line_extent(boxes: &Vec<PixelBox>) -> (r: LineExtent)
    ensures
        r == line_extent_spec(boxes@),
        0 <= r.w_offset <= r.w,
        0 <= r.h_offset <= r.h,
{
    let ghost fl = |b: PixelBox| -(b.min_x as int);
    let ghost fu = |b: PixelBox| -(b.min_y as int);
    let ghost fr = |b: PixelBox| b.max_x + 1;
    let ghost fd = |b: PixelBox| b.max_y + 1;
    let mut left: i64 = 0;
    let mut up: i64 = 0;
    let mut right: i64 = 0;
    let mut down: i64 = 0;
    let mut i: usize = 0;
    while i < boxes.len()
        invariant
            i <= boxes.len(),
            fl == |b: PixelBox| -(b.min_x as int),
            fu == |b: PixelBox| -(b.min_y as int),
            fr == |b: PixelBox| b.max_x + 1,
            fd == |b: PixelBox| b.max_y + 1,
            0 <= left <= 0x8000_0000,
            0 <= up <= 0x8000_0000,
            0 <= right <= 0x8000_0000,
            0 <= down <= 0x8000_0000,
            left == reach(boxes@, fl, i as int),
            up == reach(boxes@, fu, i as int),
            right == reach(boxes@, fr, i as int),
            down == reach(boxes@, fd, i as int),
        decreases boxes.len() - i,
    {
        let b = boxes[i];
        if -(b.min_x as i64) > left {
            left = -(b.min_x as i64);
        }
        if -(b.min_y as i64) > up {
            up = -(b.min_y as i64);
        }
        if b.max_x as i64 + 1 > right {
            right = b.max_x as i64 + 1;
        }
        if b.max_y as i64 + 1 > down {
            down = b.max_y as i64 + 1;
        }
        i += 1;
    }
    LineExtent { w_offset: left, h_offset: up, w: right + left, h: down + up }
}

} // verus!
