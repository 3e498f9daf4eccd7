use ggoled::bitmap::Bitmap;

fn bitmap_from_rows(rows: &[&str]) -> Bitmap {
    let h = rows.len();
    let w = rows.first().map_or(0, |r| r.len());
    let mut bitmap = Bitmap::new(w, h, false);
    for (y, row) in rows.iter().enumerate() {
        assert_eq!(row.len(), w);
        for (x, ch) in row.chars().enumerate() {
            bitmap.data.set(y * w + x, ch == '1');
        }
    }
    bitmap
}

fn rows_from_bitmap(bitmap: &Bitmap) -> Vec<String> {
    let mut rows = Vec::with_capacity(bitmap.h);
    for y in 0..bitmap.h {
        let mut row = String::with_capacity(bitmap.w);
        for x in 0..bitmap.w {
            row.push(if bitmap.data[y * bitmap.w + x] { '1' } else { '0' });
        }
        rows.push(row);
    }
    rows
}

#[test]
fn blit_opaque_overwrites_destination() {
    let mut dst = bitmap_from_rows(&["111", "111", "111"]);
    let src = bitmap_from_rows(&["00", "10"]);
    dst.blit(&src, 1, 1, true);
    assert_eq!(rows_from_bitmap(&dst), vec!["111", "100", "110"]);
}

#[test]
fn blit_transparent_ors_destination() {
    let mut dst = bitmap_from_rows(&["010", "000", "000"]);
    let src = bitmap_from_rows(&["10", "01"]);
    dst.blit(&src, 1, 1, false);
    assert_eq!(rows_from_bitmap(&dst), vec!["010", "010", "001"]);
}

#[test]
fn blit_handles_negative_offset() {
    let mut dst = bitmap_from_rows(&["000", "000", "000"]);
    let src = bitmap_from_rows(&["111", "111", "111"]);
    dst.blit(&src, -1, -1, true);
    assert_eq!(rows_from_bitmap(&dst), vec!["110", "110", "000"]);
}

#[test]
fn blit_offscreen_noop() {
    let mut dst = bitmap_from_rows(&["101", "010", "101"]);
    let before = rows_from_bitmap(&dst);
    let src = bitmap_from_rows(&["11", "11"]);
    dst.blit(&src, 10, 10, true);
    assert_eq!(rows_from_bitmap(&dst), before);
}

#[test]
fn new_fills_every_pixel() {
    let on = Bitmap::new(5, 3, true);
    assert_eq!((on.w, on.h, on.data.len()), (5, 3, 15));
    assert!(on.data.iter().all(|bit| bit));
    let off = Bitmap::new(5, 3, false);
    assert!(off.data.iter().all(|bit| !bit));
    let none = Bitmap::new(0, 7, true);
    assert_eq!(none.data.len(), 0);
}

#[test]
fn get_and_set_address_one_pixel() {
    let mut bitmap = Bitmap::new(4, 3, false);
    bitmap.set(3, 1, true);
    assert!(bitmap.get(3, 1));
    assert!(bitmap.data[1 * 4 + 3]);
    assert_eq!(bitmap.data.iter().filter(|bit| *bit).count(), 1);
    bitmap.set(3, 1, false);
    assert!(!bitmap.get(3, 1));
}

#[test]
fn crop_of_full_rectangle_is_the_bitmap() {
    let bitmap = bitmap_from_rows(&["1010", "0110", "0001"]);
    let same = bitmap.crop(0, 0, bitmap.w, bitmap.h);
    assert!(same == bitmap);
    assert_eq!(rows_from_bitmap(&same), vec!["1010", "0110", "0001"]);
}

#[test]
fn crop_takes_the_window_at_its_corner() {
    let bitmap = bitmap_from_rows(&["1010", "0110", "0001"]);
    let window = bitmap.crop(1, 1, 3, 2);
    assert_eq!(rows_from_bitmap(&window), vec!["110", "001"]);
    let empty = bitmap.crop(4, 3, 0, 0);
    assert_eq!((empty.w, empty.h, empty.data.len()), (0, 0, 0));
}

#[test]
fn blit_or_twice_equals_once() {
    let src = bitmap_from_rows(&["101", "010"]);
    let mut once = bitmap_from_rows(&["0000", "0100", "0000"]);
    once.blit(&src, 1, 0, false);
    let mut twice = bitmap_from_rows(&["0000", "0100", "0000"]);
    twice.blit(&src, 1, 0, false);
    twice.blit(&src, 1, 0, false);
    assert!(once == twice);
    assert_eq!(rows_from_bitmap(&once), vec!["0101", "0110", "0000"]);
}

#[test]
fn blit_accepts_extreme_offsets() {
    let src = bitmap_from_rows(&["11", "11"]);
    for &(x, y) in &[
        (isize::MIN, isize::MIN),
        (isize::MAX, isize::MAX),
        (isize::MIN, 0),
        (0, isize::MAX),
        (-2, 0),
        (3, 0),
        (0, -2),
        (0, 3),
    ] {
        let mut dst = bitmap_from_rows(&["101", "010", "101"]);
        dst.blit(&src, x, y, true);
        assert_eq!(rows_from_bitmap(&dst), vec!["101", "010", "101"]);
    }
}

#[test]
fn blit_clips_at_the_far_edge() {
    let mut dst = bitmap_from_rows(&["000", "000", "000"]);
    let src = bitmap_from_rows(&["11", "11"]);
    dst.blit(&src, 2, 2, false);
    assert_eq!(rows_from_bitmap(&dst), vec!["000", "000", "001"]);
}

#[test]
fn blit_onto_empty_bitmap_changes_nothing() {
    let mut dst = Bitmap::new(0, 0, false);
    let src = bitmap_from_rows(&["1"]);
    dst.blit(&src, 0, 0, true);
    assert_eq!((dst.w, dst.h, dst.data.len()), (0, 0, 0));
}

#[test]
fn invert_flips_every_pixel() {
    let mut bitmap = bitmap_from_rows(&["10", "01", "11"]);
    bitmap.invert();
    assert_eq!(rows_from_bitmap(&bitmap), vec!["01", "10", "00"]);
    bitmap.invert();
    assert_eq!(rows_from_bitmap(&bitmap), vec!["10", "01", "11"]);
}

#[test]
fn equality_compares_size_and_pixels() {
    let a = bitmap_from_rows(&["10", "01"]);
    let b = bitmap_from_rows(&["10", "01"]);
    let c = bitmap_from_rows(&["10", "00"]);
    let wide = bitmap_from_rows(&["1001"]);
    let tall = bitmap_from_rows(&["1", "0", "0", "1"]);
    assert!(a == b);
    assert!(a.equals(&b) && b.equals(&a));
    assert!(!a.equals(&c) && !wide.equals(&tall));
    assert!(a != c);
    assert!(wide != tall);
    assert!(a != wide);
}

#[test]
fn single_dot_on_the_screen() {
    let mut screen = Bitmap::new(128, 64, false);
    let dot = Bitmap::new(1, 1, true);
    screen.blit(&dot, 10, 5, true);
    for y in 0..64 {
        for x in 0..128 {
            assert_eq!(screen.get(x, y), x == 10 && y == 5);
        }
    }
}

#[test]
fn validity_compares_the_bit_count_with_the_size() {
    let good = Bitmap::new(4, 3, false);
    assert!(good.is_valid());
    let mut short = Bitmap::new(4, 3, false);
    short.h = 4;
    assert!(!short.is_valid());
    let mut long = Bitmap::new(4, 3, false);
    long.w = 2;
    assert!(!long.is_valid());
    let mut huge = Bitmap::new(0, 0, false);
    huge.w = usize::MAX;
    huge.h = 2;
    assert!(!huge.is_valid());
    assert!(Bitmap::new(0, 9, true).is_valid());
}
