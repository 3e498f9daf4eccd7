use ggoled::bitmap::Bitmap;
use ggoled::picture::{bitmap_from_decoded, bitmap_from_image, bitmap_from_memory, PictureError, RgbaImage};
use std::io::Cursor;

fn rows_from_bitmap(bitmap: &Bitmap) -> Vec<String> {
    (0..bitmap.h)
        .map(|y| (0..bitmap.w).map(|x| if bitmap.get(x, y) { '1' } else { '0' }).collect())
        .collect()
}

fn pixels() -> Vec<u8> {
    vec![
        255, 255, 255, 255, /**/ 0, 0, 0, 255, /**/ 128, 128, 128, 0, //
        127, 128, 128, 255, /**/ 255, 255, 0, 255, /**/ 200, 0, 100, 7,
    ]
}

#[test]
fn pixels_are_set_from_the_mean_of_the_colours() {
    let img = RgbaImage { width: 3, height: 2, pixels: pixels() };
    // the means are 255, 0, 128 and 127, 170, 100
    assert_eq!(rows_from_bitmap(&bitmap_from_image(&img, 0x80)), vec!["101", "010"]);
    assert_eq!(rows_from_bitmap(&bitmap_from_image(&img, 0)), vec!["111", "111"]);
    assert_eq!(rows_from_bitmap(&bitmap_from_image(&img, 255)), vec!["100", "000"]);
    assert_eq!(rows_from_bitmap(&bitmap_from_image(&img, 100)), vec!["101", "111"]);
    assert_eq!(rows_from_bitmap(&bitmap_from_image(&img, 101)), vec!["101", "110"]);
}

#[test]
fn picture_without_pixels_is_an_empty_bitmap() {
    let img = RgbaImage { width: 0, height: 4, pixels: Vec::new() };
    let bitmap = bitmap_from_image(&img, 1);
    assert_eq!((bitmap.w, bitmap.h, bitmap.data.len()), (0, 4, 0));
}

#[test]
fn png_in_memory_becomes_a_bitmap() {
    let source = image::RgbaImage::from_raw(3, 2, pixels()).unwrap();
    let mut file = Cursor::new(Vec::new());
    source.write_to(&mut file, image::ImageFormat::Png).unwrap();
    let bytes = file.into_inner();
    let bitmap = bitmap_from_memory(&bytes, 0x80).unwrap();
    assert_eq!((bitmap.w, bitmap.h), (3, 2));
    assert_eq!(rows_from_bitmap(&bitmap), vec!["101", "010"]);
    let direct = bitmap_from_image(&RgbaImage { width: 3, height: 2, pixels: pixels() }, 0x80);
    assert!(bitmap == direct);
}

#[test]
fn grey_png_is_read_as_colour() {
    let source = image::GrayImage::from_raw(2, 1, vec![200, 50]).unwrap();
    let mut file = Cursor::new(Vec::new());
    source.write_to(&mut file, image::ImageFormat::Png).unwrap();
    let bitmap = bitmap_from_memory(&file.into_inner(), 128).unwrap();
    assert_eq!(rows_from_bitmap(&bitmap), vec!["10"]);
}

#[test]
fn bytes_that_are_no_image_are_refused() {
    match bitmap_from_memory(b"this is no picture", 0x80) {
        Err(PictureError::Undecodable { reason }) => assert!(!reason.is_empty()),
        Ok(_) => panic!("expected an error"),
    }
    assert!(bitmap_from_memory(&[], 0x80).is_err());
}

#[test]
fn decoder_result_becomes_a_bitmap_or_an_error() {
    let img = RgbaImage { width: 3, height: 2, pixels: pixels() };
    let bitmap = bitmap_from_decoded(Ok(img), 0x80).unwrap();
    assert_eq!(rows_from_bitmap(&bitmap), vec!["101", "010"]);
    let failure = image::load_from_memory(b"this is no picture").unwrap_err();
    let message = format!("{failure}");
    match bitmap_from_decoded(Err(failure), 0x80) {
        Err(PictureError::Undecodable { reason }) => assert_eq!(reason, message),
        Ok(_) => panic!("expected an error"),
    }
}

#[test]
fn picture_is_checked() {
    assert!(RgbaImage { width: 3, height: 2, pixels: pixels() }.is_valid());
    assert!(!RgbaImage { width: 2, height: 2, pixels: pixels() }.is_valid());
    assert!(!RgbaImage { width: 3, height: 2, pixels: vec![0; 23] }.is_valid());
    assert!(!RgbaImage { width: 3, height: 2, pixels: vec![0; 25] }.is_valid());
    assert!(RgbaImage { width: 0, height: 9, pixels: Vec::new() }.is_valid());
    assert!(!RgbaImage { width: u32::MAX, height: u32::MAX, pixels: Vec::new() }.is_valid());
}
