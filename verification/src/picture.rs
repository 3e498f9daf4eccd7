//! Pictures in colour turned into 1-bit bitmaps.
//!
//! Decoding an image file is left to the `image` crate. Of what it decodes
//! the verifier knows only that a picture holds four bytes for each pixel;
//! what becomes of a decoded picture is verified.

use crate::bitmap::{Bitmap, Raster};
use crate::bits::{bit_seq, bits_push, bits_with_capacity};
use vstd::prelude::*;

verus! {

/// `image::ImageError`, carried as an opaque value.
#[verifier::external_type_specification]
#[verifier::external_body]
pub struct ExImageError(::image::ImageError);

/// A picture with four bytes to the pixel: red, green, blue and alpha, row by
/// row.
pub struct RgbaImage {
    pub width: u32,
    pub height: u32,
    pub pixels: Vec<u8>,
}

/// Why a picture could not be had.
#[derive(Debug)]
pub enum PictureError {
    /// The bytes are no image that the decoder reads; `reason` is the
    /// decoder's message.
    Undecodable { reason: String },
}

impl RgbaImage {
    /// The picture holds four bytes for each of its pixels.
    pub open spec fn wf(&self) -> bool {
        self.pixels.len() == 4 * (self.width * self.height)
    }
}

/// Whether a pixel counts as set: the mean of its red, green and blue is at
/// least `threshold`.
pub open spec fn bright(pixels: Seq<u8>, i: int, threshold: u8) -> bool {
    (pixels[4 * i] + pixels[4 * i + 1] + pixels[4 * i + 2]) / 3 >= threshold
}

/// The 1-bit picture of an RGBA picture.
pub open spec fn thresholded(width: u32, height: u32, pixels: Seq<u8>, threshold: u8) -> Raster {
    Raster {
        w: width as nat,
        h: height as nat,
        bits: Seq::new((width * height) as nat, |i: int| bright(pixels, i, threshold)),
    }
}

/// `image::load_from_memory`, with its result copied out through
/// `DynamicImage::to_rgba8`: the decoded picture, or the decoder's error.
/// Which of the two comes back for given bytes is not stated, since the
/// decoders in use can be changed while the program runs. An RGBA picture of
/// the `image` crate has four bytes for each pixel.
#[verifier::external_body]
fn decode_rgba(buf: &[u8]) -> (r: Result<RgbaImage, ::image::ImageError>)
    ensures
        r matches Ok(img) ==> img.wf(),
{
    let img = ::image::load_from_memory(buf)?.to_rgba8();
    let (width, height) = (img.width(), img.height());
    Ok(RgbaImage { width, height, pixels: img.pixels().flat_map(|p| p.0).collect() })
}

/// The message of an `image::ImageError`, as its `Display` writes it.
#[verifier::external_body]
fn decode_error_message(e: &::image::ImageError) -> String {
    format!("{e}")
}

/// Turns an RGBA picture into a bitmap of the same size. A pixel is set
/// where the mean of its red, green and blue is at least `threshold`.
pub fn bitmap_from_image(img: &RgbaImage, threshold: u8) -> (r: Bitmap)
    requires
        img.wf(),
    ensures
        r.wf(),
        r@ == thresholded(img.width, img.height, img.pixels@, threshold),
{
    let count: usize = img.pixels.len() / 4;
    assert(count == img.width * img.height);
    let mut data = bits_with_capacity(count);
    let mut i: usize = 0;
    while i < count
        invariant
            i <= count,
            img.pixels.len() == 4 * count,
            bit_seq(data).len() == i,
            forall|k: int| 0 <= k < i ==> #[trigger] bit_seq(data)[k] == bright(img.pixels@, k, threshold),
        decreases count - i,
    {
        let red = img.pixels[4 * i] as usize;
        let green = img.pixels[4 * i + 1] as usize;
        let blue = img.pixels[4 * i + 2] as usize;
        bits_push(&mut data, (red + green + blue) / 3 >= threshold as usize);
        i += 1;
    }
    let bitmap = Bitmap { w: img.width as usize, h: img.height as usize, data };
    assert(bitmap@.bits =~= thresholded(img.width, img.height, img.pixels@, threshold).bits);
    bitmap
}

/// What becomes of a decoder's result: a decoded picture becomes its bitmap,
/// see [`bitmap_from_image`], and the decoder's error becomes
/// [`PictureError::Undecodable`].
pub fn bitmap_from_decoded(decoded: Result<RgbaImage, ::image::ImageError>, threshold: u8) -> (r: Result<
    Bitmap,
    PictureError,
>)
    requires
        decoded matches Ok(img) ==> img.wf(),
    ensures
        match decoded {
            Ok(img) => r is Ok && r->Ok_0.wf() && r->Ok_0@ == thresholded(
                img.width,
                img.height,
                img.pixels@,
                threshold,
            ),
            Err(_) => r is Err,
        },
{
    match decoded {
        Ok(img) => Ok(bitmap_from_image(&img, threshold)),
        Err(e) => Err(PictureError::Undecodable { reason: decode_error_message(&e) }),
    }
}

/// Decodes an image file held in memory and turns it into a bitmap; see
/// [`bitmap_from_decoded`]. Whether the bytes decode is up to the decoder.
pub fn bitmap_from_memory(buf: &[u8], threshold: u8) -> (r: Result<Bitmap, PictureError>)
    ensures
        r matches Ok(bitmap) ==> bitmap.wf(),
{
    bitmap_from_decoded(decode_rgba(buf), threshold)
}

impl RgbaImage {
    /// Whether the picture holds four bytes for each of its pixels.
    pub fn is_valid(&self) -> (r: bool)
        ensures
            r == self.wf(),
    {
        assert(self.width * self.height <= 0xffff_ffff * 0xffff_ffff) by (nonlinear_arith)
            requires
                0 <= self.width <= 0xffff_ffff,
                0 <= self.height <= 0xffff_ffff,
        ;
        let count: u64 = (self.width as u64) * (self.height as u64);
        self.pixels.len() % 4 == 0 && (self.pixels.len() / 4) as u128 == count as u128
    }
}

} // verus!
