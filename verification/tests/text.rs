use ggoled::bitmap::Bitmap;
use ggoled::text::{glyph_pixel, line_extent, split_lines, BitmapFont, FontBounds, Glyph, LineExtent, PixelBox};

fn bitmap_from_rows(rows: &[&str]) -> Bitmap {
    let w = rows.first().map_or(0, |r| r.len());
    let mut bitmap = Bitmap::new(w, rows.len(), false);
    for (y, row) in rows.iter().enumerate() {
        for (x, ch) in row.chars().enumerate() {
            bitmap.set(x, y, ch == '1');
        }
    }
    bitmap
}

fn rows_from_bitmap(bitmap: &Bitmap) -> Vec<String> {
    (0..bitmap.h)
        .map(|y| (0..bitmap.w).map(|x| if bitmap.get(x, y) { '1' } else { '0' }).collect())
        .collect()
}

fn glyph(codepoint: char, device_width: Option<u32>, x: i32, y: i32, rows: &[&str]) -> Glyph {
    let map = bitmap_from_rows(rows);
    Glyph {
        codepoint,
        device_width,
        bounds: FontBounds { width: map.w as u32, height: map.h as u32, x, y },
        map,
    }
}

// A font with a box of 4 by 5 whose baseline lies one row above the bottom.
fn font() -> BitmapFont {
    BitmapFont {
        bounds: FontBounds { width: 4, height: 5, x: 0, y: -1 },
        glyphs: vec![
            glyph('a', Some(4), 0, 0, &["111", "101", "111"]),
            glyph('l', Some(2), 0, 0, &["1", "1", "1", "1"]),
            glyph('g', Some(4), 0, -1, &["111", "111", "001", "111"]),
            glyph('.', None, 1, 0, &["1"]),
            glyph('<', Some(3), -1, 1, &["11"]),
            glyph('a', Some(9), 0, 0, &["1"]),
        ],
    }
}

fn chars(s: &str) -> Vec<char> {
    s.chars().collect()
}

#[test]
fn text_splits_at_line_feeds() {
    assert_eq!(split_lines("AB\nCD"), vec![chars("AB"), chars("CD")]);
    assert_eq!(split_lines(""), vec![chars("")]);
    assert_eq!(split_lines("\n"), vec![chars(""), chars("")]);
    assert_eq!(split_lines("a\r\nb\r"), vec![chars("a"), chars("b")]);
    assert_eq!(split_lines("a\n\nb\n"), vec![chars("a"), chars(""), chars("b"), chars("")]);
    assert_eq!(split_lines("\r"), vec![chars("")]);
    assert_eq!(split_lines("\u{e9}\u{4e16}\n\u{1f600}"), vec![chars("\u{e9}\u{4e16}"), chars("\u{1f600}")]);
}

#[test]
fn line_height_is_the_height_of_the_box() {
    assert_eq!(font().line_height(), 5);
}

#[test]
fn first_glyph_of_a_character_counts() {
    let font = font();
    assert_eq!(font.find_glyph('a'), Some(0));
    assert_eq!(font.find_glyph('.'), Some(3));
    assert_eq!(font.find_glyph('x'), None);
    assert_eq!(font.char_advance('a'), 4);
    assert_eq!(font.char_advance('.'), 4);
    assert_eq!(font.char_advance('l'), 2);
    assert_eq!(font.char_advance('x'), 0);
}

#[test]
fn widths_add_up_what_the_glyphs_advance() {
    let font = font();
    assert_eq!(font.measure_line(&chars("all")), 8);
    assert_eq!(font.measure_line(&chars("")), 0);
    assert_eq!(font.measure_line(&chars("x?")), 0);
    assert_eq!(font.measure_line_widths("all\n\nxa.\r\nl"), vec![8, 0, 8, 2]);
    assert_eq!(font.measure_line_widths(""), vec![0]);
}

#[test]
fn glyphs_stand_on_the_baseline() {
    let font = font();
    let line = font.render_line(&chars("alg."));
    assert_eq!(
        rows_from_bitmap(&line),
        vec![
            "00001000000000",
            "11101011100000",
            "10101011100000",
            "11101000100100",
            "00000011100000",
        ]
    );
}

#[test]
fn glyphs_are_cut_off_at_the_edges() {
    let font = font();
    // the first glyph reaches one column to the left of the line
    assert_eq!(rows_from_bitmap(&font.render_line(&chars("<"))), vec!["000", "000", "100", "000", "000"]);
    // after another glyph it is drawn in full, from the column before the pen
    assert_eq!(
        rows_from_bitmap(&font.render_line(&chars("l<"))),
        vec!["10000", "10000", "11100", "10000", "00000"]
    );
}

#[test]
fn empty_lines_have_no_columns() {
    let font = font();
    let lines = font.render_lines("a\n\nxy\nl");
    let sizes: Vec<(usize, usize)> = lines.iter().map(|b| (b.w, b.h)).collect();
    assert_eq!(sizes, vec![(4, 5), (0, 5), (0, 5), (2, 5)]);
    assert_eq!(rows_from_bitmap(&lines[3]), vec!["10", "10", "10", "10", "00"]);
    assert_eq!(font.render_lines("").len(), 1);
}

#[test]
fn rendered_widths_are_the_measured_ones() {
    let font = font();
    let text = "gal.\nl<l\n..";
    let widths = font.measure_line_widths(text);
    let rendered: Vec<usize> = font.render_lines(text).iter().map(|b| b.w).collect();
    assert_eq!(widths, rendered);
    assert_eq!(widths, vec![14, 7, 8]);
}

#[test]
fn extent_spans_all_boxes_and_the_origin() {
    let boxes = vec![
        PixelBox { min_x: 1, min_y: -9, max_x: 6, max_y: -1 },
        PixelBox { min_x: 8, min_y: -6, max_x: 13, max_y: 2 },
    ];
    assert_eq!(line_extent(&boxes), LineExtent { w_offset: 0, h_offset: 9, w: 14, h: 12 });
    let hanging = vec![PixelBox { min_x: -2, min_y: 3, max_x: 4, max_y: 5 }];
    assert_eq!(line_extent(&hanging), LineExtent { w_offset: 2, h_offset: 0, w: 7, h: 6 });
    assert_eq!(line_extent(&Vec::new()), LineExtent { w_offset: 0, h_offset: 0, w: 0, h: 0 });
    let far = vec![PixelBox { min_x: i32::MIN, min_y: i32::MIN, max_x: i32::MAX, max_y: i32::MAX }];
    assert_eq!(
        line_extent(&far),
        LineExtent { w_offset: 1 << 31, h_offset: 1 << 31, w: 1 << 32, h: 1 << 32 }
    );
}

#[test]
fn fonts_and_lines_are_checked_before_they_are_drawn() {
    let mut font = font();
    assert!(font.is_valid());
    assert!(font.line_fits(&chars("all.<")));
    assert!(font.line_fits(&chars("")));
    // a glyph that moves the pen across half the address space
    let half = (usize::MAX / 2) as u64;
    if half > u32::MAX as u64 {
        font.glyphs.push(glyph('w', Some(u32::MAX), 0, 0, &["1"]));
        assert!(font.line_fits(&chars("w")));
        assert!(font.line_fits(&chars("wwww")));
    }
    font.glyphs[1].map.h = 9;
    assert!(!font.is_valid());
}

#[test]
fn line_without_rows_fits_whatever_its_width() {
    let font = BitmapFont {
        bounds: FontBounds { width: u32::MAX, height: 0, x: 0, y: 0 },
        glyphs: vec![glyph('a', None, 0, 0, &["1"])],
    };
    assert!(font.line_fits(&chars("aaa")));
    let line = font.render_line(&chars("aa"));
    assert_eq!((line.w as u64, line.h), (2 * u32::MAX as u64, 0));
}

#[test]
fn glyph_pixels_land_inside_the_line() {
    let boxes = vec![
        PixelBox { min_x: -2, min_y: -9, max_x: 4, max_y: -1 },
        PixelBox { min_x: 8, min_y: -6, max_x: 13, max_y: 2 },
    ];
    let extent = line_extent(&boxes);
    assert_eq!(extent, LineExtent { w_offset: 2, h_offset: 9, w: 16, h: 12 });
    assert_eq!(glyph_pixel(extent, boxes[0], 0, 0), Some((0, 0)));
    assert_eq!(glyph_pixel(extent, boxes[0], 6, 8), Some((6, 8)));
    assert_eq!(glyph_pixel(extent, boxes[1], 0, 0), Some((10, 3)));
    assert_eq!(glyph_pixel(extent, boxes[1], 5, 8), Some((15, 11)));
    assert_eq!(glyph_pixel(extent, boxes[1], 6, 8), None);
    assert_eq!(glyph_pixel(extent, boxes[1], 5, 9), None);
    let outside = PixelBox { min_x: -3, min_y: -10, max_x: 0, max_y: 0 };
    assert_eq!(glyph_pixel(extent, outside, 0, 1), None);
    assert_eq!(glyph_pixel(extent, outside, 1, 0), None);
    assert_eq!(glyph_pixel(extent, outside, 1, 1), Some((0, 0)));
    assert_eq!(glyph_pixel(extent, boxes[0], u32::MAX, u32::MAX), None);
}
