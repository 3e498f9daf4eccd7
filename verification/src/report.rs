//! The HID codec: how a bitmap is cut into draw reports, what the fixed
//! control reports hold, and how an input report is read.

use crate::bitmap::{lemma_index_in_bounds, lemma_index_split, Bitmap, Raster};
use vstd::prelude::*;

verus! {

/// The largest number of columns that one draw report carries.
pub const SCREEN_REPORT_SPLIT_SZ: usize = 64;

/// The length of a draw report in bytes.
pub const SCREEN_REPORT_SIZE: usize = 1024;

/// The length of a control report and of an input report in bytes.
pub const CONTROL_REPORT_SIZE: usize = 64;

/// The loudest base station volume; on the wire the volume counts down from it.
pub const BASE_STATION_VOLUME_MAX: u8 = 0x38;

/// The width of the display in pixels.
pub const DEVICE_WIDTH: usize = 128;

/// The height of the display in pixels.
pub const DEVICE_HEIGHT: usize = 64;

/// The number of header bytes in front of a draw report's pixel data.
pub const REPORT_HEADER_SIZE: usize = 6;

/// One draw report, header and column-major pixel data.
pub type DrawReport = [u8; SCREEN_REPORT_SIZE];

/// One control report sent to the device, or one input report read from it.
pub type ControlReport = [u8; CONTROL_REPORT_SIZE];

/// A rectangle of a bitmap that goes into one draw report: its size, where it
/// lands on the screen and where it starts in the bitmap.
#[derive(Clone, Copy, Debug, PartialEq, Eq, Structural)]
pub struct ReportDrawableSpec {
    pub w: usize,
    pub h: usize,
    pub dst_x: usize,
    pub dst_y: usize,
    pub src_x: usize,
    pub src_y: usize,
}

/// `v` moved into the range from 0 to `limit`.
pub open spec fn clip(v: int, limit: int) -> int {
    if v < 0 {
        0
    } else if v > limit {
        limit
    } else {
        v
    }
}

/// The number of reports needed for `w` columns.
pub open spec fn chunk_count(w: int) -> int {
    (w + SCREEN_REPORT_SPLIT_SZ - 1) / (SCREEN_REPORT_SPLIT_SZ as int)
}

/// The rectangles that a `bw` by `bh` bitmap placed at `(x, y)` is cut into
/// for a `sw` by `sh` screen.
///
/// The bitmap's rectangle is clipped to the screen. What is left is cut from
/// left to right into pieces of at most 64 columns; nothing is left where the
/// bitmap misses the screen.
pub open spec fn report_chunks(bw: nat, bh: nat, x: int, y: int, sw: nat, sh: nat) -> Seq<
    ReportDrawableSpec,
> {
    let x0 = clip(x, sw as int);
    let y0 = clip(y, sh as int);
    let x1 = clip(x + bw, sw as int);
    let y1 = clip(y + bh, sh as int);
    if x0 >= x1 || y0 >= y1 {
        Seq::empty()
    } else {
        Seq::new(
            chunk_count(x1 - x0) as nat,
            |i: int|
                ReportDrawableSpec {
                    w: (if x1 - x0 - i * SCREEN_REPORT_SPLIT_SZ < SCREEN_REPORT_SPLIT_SZ {
                        x1 - x0 - i * SCREEN_REPORT_SPLIT_SZ
                    } else {
                        SCREEN_REPORT_SPLIT_SZ as int
                    }) as usize,
                    h: (y1 - y0) as usize,
                    dst_x: (x0 + i * SCREEN_REPORT_SPLIT_SZ) as usize,
                    dst_y: y0 as usize,
                    src_x: (x0 - x + i * SCREEN_REPORT_SPLIT_SZ) as usize,
                    src_y: (y0 - y) as usize,
                },
        )
    }
}

/// A rectangle is not empty, is at most 64 columns wide, lies inside a `bw` by
/// `bh` bitmap and lands inside a `sw` by `sh` screen.
pub open spec fn chunk_in_bounds(d: ReportDrawableSpec, bw: nat, bh: nat, sw: nat, sh: nat) -> bool {
    &&& 1 <= d.w <= SCREEN_REPORT_SPLIT_SZ
    &&& 1 <= d.h
    &&& d.src_x + d.w <= bw
    &&& d.src_y + d.h <= bh
    &&& d.dst_x + d.w <= sw
    &&& d.dst_y + d.h <= sh
}

/// `v` moved into the range from 0 to `limit`, computed without overflow.
fn clip_to(v: i128, limit: usize) -> (r: usize)
    ensures
        r == clip(v as int, limit as int),
{
    if v < 0 {
        0
    } else if v > limit as i128 {
        limit
    } else {
        v as usize
    }
}

/// Cuts the part of `bitmap` that is visible on the screen into rectangles of
/// at most 64 columns, one per draw report.
///
/// The bitmap is placed with its top left corner at `(x, y)`. The result is
/// empty when no pixel of it falls on the screen.
pub fn prepare_drawables_for_report(
    bitmap: &Bitmap,
    x: isize,
    y: isize,
    screen_w: usize,
    screen_h: usize,
) -> (r: Vec<ReportDrawableSpec>)
    ensures
        r@ == report_chunks(
            bitmap.w as nat,
            bitmap.h as nat,
            x as int,
            y as int,
            screen_w as nat,
            screen_h as nat,
        ),
        forall|i: int|
            0 <= i < r.len() ==> chunk_in_bounds(
                #[trigger] r[i],
                bitmap.w as nat,
                bitmap.h as nat,
                screen_w as nat,
                screen_h as nat,
            ),
{
    let ghost want = report_chunks(
        bitmap.w as nat,
        bitmap.h as nat,
        x as int,
        y as int,
        screen_w as nat,
        screen_h as nat,
    );
    let dst_x_start = clip_to(x as i128, screen_w);
    let dst_y_start = clip_to(y as i128, screen_h);
    let dst_x_end = clip_to(x as i128 + bitmap.w as i128, screen_w);
    let dst_y_end = clip_to(y as i128 + bitmap.h as i128, screen_h);
    if dst_x_start >= dst_x_end || dst_y_start >= dst_y_end {
        return Vec::new();
    }
    let w: usize = dst_x_end - dst_x_start;
    let h: usize = dst_y_end - dst_y_start;
    let src_x: usize = (dst_x_start as i128 - x as i128) as usize;
    let src_y: usize = (dst_y_start as i128 - y as i128) as usize;
    let splits: usize = (w - 1) / SCREEN_REPORT_SPLIT_SZ + 1;
    assert(splits == chunk_count(w as int));
    let mut drawables: Vec<ReportDrawableSpec> = Vec::with_capacity(splits);
    let mut i: usize = 0;
    while i < splits
        invariant
            i <= splits,
            splits == (w - 1) / (SCREEN_REPORT_SPLIT_SZ as int) + 1,
            want.len() == splits,
            1 <= w,
            1 <= h,
            w == dst_x_end - dst_x_start,
            h == dst_y_end - dst_y_start,
            dst_x_start == clip(x as int, screen_w as int),
            dst_y_start == clip(y as int, screen_h as int),
            dst_x_end == clip(x + bitmap.w, screen_w as int),
            dst_y_end == clip(y + bitmap.h, screen_h as int),
            dst_x_end <= screen_w,
            dst_y_end <= screen_h,
            src_x == dst_x_start - x,
            src_y == dst_y_start - y,
            src_x + w <= bitmap.w,
            src_y + h <= bitmap.h,
            want == report_chunks(
                bitmap.w as nat,
                bitmap.h as nat,
                x as int,
                y as int,
                screen_w as nat,
                screen_h as nat,
            ),
            drawables.len() == i,
            forall|k: int| 0 <= k < i ==> #[trigger] drawables[k] == want[k],
            forall|k: int|
                0 <= k < i ==> chunk_in_bounds(
                    #[trigger] drawables[k],
                    bitmap.w as nat,
                    bitmap.h as nat,
                    screen_w as nat,
                    screen_h as nat,
                ),
        decreases splits - i,
    {
        let offset: usize = i * SCREEN_REPORT_SPLIT_SZ;
        let rest: usize = w - offset;
        let chunk_w: usize = if rest < SCREEN_REPORT_SPLIT_SZ {
            rest
        } else {
            SCREEN_REPORT_SPLIT_SZ
        };
        drawables.push(
            ReportDrawableSpec {
                w: chunk_w,
                h,
                dst_x: dst_x_start + offset,
                dst_y: dst_y_start,
                src_x: src_x + offset,
                src_y,
            },
        );
        i += 1;
    }
    assert(drawables@ =~= want);
    drawables
}

/// The number of bits that one column takes in a draw report: the rows of the
/// rectangle together with the rows above it in its topmost strip of eight,
/// rounded up to whole bytes.
pub open spec fn stride_h(d: ReportDrawableSpec) -> int {
    ((d.dst_y % 8 + d.h + 7) / 8) * 8
}

/// The number of bits of pixel data that a draw report has room for.
pub open spec fn payload_bits() -> int {
    (SCREEN_REPORT_SIZE - REPORT_HEADER_SIZE) * 8
}

/// The rectangle's pixel data has room in one draw report: the bit of its
/// last pixel, in its last column, lies inside the report.
pub open spec fn fits_report(d: ReportDrawableSpec) -> bool {
    d.w == 0 || d.h == 0 || (d.w - 1) * stride_h(d) + d.h <= payload_bits()
}

/// Bit `k` of a byte, counted from the least significant one.
pub open spec fn byte_bit(b: u8, k: int) -> bool {
    (b >> (k as u8)) & 1 == 1
}

/// Bit `n` of a draw report's pixel data: the bytes after the header, each
/// read from its least significant bit upwards.
pub open spec fn report_bit(report: Seq<u8>, n: int) -> bool {
    byte_bit(report[REPORT_HEADER_SIZE + n / 8], n % 8)
}

/// What bit `n` of the pixel data has to be for the rectangle `d` of `bitmap`.
///
/// The data runs column by column, `stride_h(d)` bits to a column. A bit is
/// set where it stands for a pixel of the rectangle that is set in the bitmap.
pub open spec fn payload_bit(bitmap: Raster, d: ReportDrawableSpec, n: int) -> bool {
    let x = n / stride_h(d);
    let y = n % stride_h(d);
    0 <= x < d.w && 0 <= y < d.h && bitmap.pixel(d.src_x + x, d.src_y + y)
}

/// `report` is the draw report for the rectangle `d` of `bitmap`: the header
/// names the command and the rectangle, and every bit of pixel data is as
/// [`payload_bit`] says.
pub open spec fn report_encodes(report: Seq<u8>, bitmap: Raster, d: ReportDrawableSpec) -> bool {
    &&& report.len() == SCREEN_REPORT_SIZE
    &&& report[0] == 0x06
    &&& report[1] == 0x93
    &&& report[2] == d.dst_x % 256
    &&& report[3] == d.dst_y % 256
    &&& report[4] == d.w % 256
    &&& report[5] == d.h % 256
    &&& forall|n: int| 0 <= n < payload_bits() ==> #[trigger] report_bit(report, n) == payload_bit(bitmap, d, n)
}

/// Setting bit `k` of a byte sets that bit and leaves the other seven.
proof fn lemma_set_bit(b: u8, k: u8, j: u8)
    requires
        k < 8,
        j < 8,
    ensures
        byte_bit(b | (1u8 << k), j as int) == (j == k || byte_bit(b, j as int)),
{
    assert(((b | (1u8 << k)) >> j) & 1 == 1 <==> (j == k || (b >> j) & 1 == 1)) by (bit_vector)
        requires
            k < 8,
            j < 8,
    ;
}

/// No bit of a zero byte is set.
proof fn lemma_zero_bits(j: u8)
    requires
        j < 8,
    ensures
        !byte_bit(0u8, j as int),
{
    assert((0u8 >> j) & 1 == 0) by (bit_vector)
        requires
            j < 8,
    ;
}

/// The low byte of a length.
fn low_byte(v: usize) -> (r: u8)
    ensures
        r == v % 256,
{
    (v % 256) as u8
}

/// Builds the draw report for the rectangle `d` of `bitmap`.
///
/// The rectangle has to lie inside the bitmap and its pixel data has to fit
/// the report.
#[verifier::rlimit(50)]
pub fn create_report_for_drawable(bitmap: &Bitmap, d: ReportDrawableSpec) -> (report: DrawReport)
    requires
        bitmap.wf(),
        d.src_x + d.w <= bitmap.w,
        d.src_y + d.h <= bitmap.h,
        fits_report(d),
    ensures
        report_encodes(report@, bitmap@, d),
{
    let mut report: DrawReport = [0u8;SCREEN_REPORT_SIZE];
    report[0] = 0x06;
    report[1] = 0x93;
    report[2] = low_byte(d.dst_x);
    report[3] = low_byte(d.dst_y);
    report[4] = low_byte(d.w);
    report[5] = low_byte(d.h);
    proof {
        assert forall|n: int| 0 <= n < payload_bits() implies !#[trigger] report_bit(report@, n) by {
            lemma_zero_bits((n % 8) as u8);
        }
    }
    if d.w == 0 || d.h == 0 {
        return report;
    }
    proof {
        assert(0 <= (d.w - 1) * stride_h(d)) by (nonlinear_arith)
            requires
                d.w >= 1,
                stride_h(d) >= 0,
        ;
    }
    let stride: usize = (d.dst_y % 8 + d.h + 7) / 8 * 8;
    let mut y: usize = 0;
    while y < d.h
        invariant
            bitmap.wf(),
            d.src_x + d.w <= bitmap.w,
            d.src_y + d.h <= bitmap.h,
            1 <= d.w,
            y <= d.h,
            d.h <= stride,
            stride == stride_h(d),
            (d.w - 1) * stride + d.h <= payload_bits(),
            report[0] == 0x06,
            report[1] == 0x93,
            report[2] == d.dst_x % 256,
            report[3] == d.dst_y % 256,
            report[4] == d.w % 256,
            report[5] == d.h % 256,
            forall|n: int|
                0 <= n < payload_bits() ==> #[trigger] report_bit(report@, n) == (payload_bit(bitmap@, d, n)
                    && n % (stride as int) < y),
        decreases d.h - y,
    {
        let mut x: usize = 0;
        while x < d.w
            invariant
                bitmap.wf(),
                d.src_x + d.w <= bitmap.w,
                d.src_y + d.h <= bitmap.h,
                1 <= d.w,
                x <= d.w,
                y < d.h,
                d.h <= stride,
                stride == stride_h(d),
                (d.w - 1) * stride + d.h <= payload_bits(),
                report[0] == 0x06,
                report[1] == 0x93,
                report[2] == d.dst_x % 256,
                report[3] == d.dst_y % 256,
                report[4] == d.w % 256,
                report[5] == d.h % 256,
                forall|n: int|
                    0 <= n < payload_bits() ==> #[trigger] report_bit(report@, n) == (payload_bit(
                        bitmap@,
                        d,
                        n,
                    ) && (n % (stride as int) < y || (n % (stride as int) == y && n / (stride as int) < x))),
            decreases d.w - x,
        {
            proof {
                assert(0 <= x * stride <= (d.w - 1) * stride) by (nonlinear_arith)
                    requires
                        0 <= x <= d.w - 1,
                        0 <= stride,
                ;
                lemma_index_split(y as int, x as int, stride as int);
            }
            let ri: usize = x * stride + y;
            let report_i: usize = ri / 8 + REPORT_HEADER_SIZE;
            let bit = bitmap.get(d.src_x + x, d.src_y + y);
            let ghost before = report@;
            if bit {
                let k: u8 = (ri % 8) as u8;
                let byte: u8 = report[report_i];
                report[report_i] = byte | (1u8 << k);
                proof {
                    assert forall|n: int| 0 <= n < payload_bits() implies #[trigger] report_bit(report@, n)
                        == (report_bit(before, n) || n == ri) by {
                        if n / 8 == ri / 8 {
                            lemma_set_bit(byte, k, (n % 8) as u8);
                        }
                    }
                }
            }
            proof {
                assert forall|n: int| 0 <= n < payload_bits() implies #[trigger] report_bit(report@, n) == (
                payload_bit(bitmap@, d, n) && (n % (stride as int) < y || (n % (stride as int) == y && n / (
                stride as int) < x + 1))) by {
                    vstd::arithmetic::div_mod::lemma_fundamental_div_mod(n, stride as int);
                    assert(x * stride == stride * x) by (nonlinear_arith);
                    assert(report_bit(report@, n) == (report_bit(before, n) || (n == ri && bit)));
                }
            }
            x += 1;
        }
        y += 1;
    }
    proof {
        assert forall|n: int| 0 <= n < payload_bits() implies #[trigger] report_bit(report@, n) == payload_bit(
            bitmap@,
            d,
            n,
        ) by {
            if payload_bit(bitmap@, d, n) {
                assert(n % (stride as int) < d.h);
            }
        }
    }
    report
}

/// The tallest screen whose rectangles always fit one draw report: 64
/// columns of at most 127 bits each take 1016 of the 1018 bytes that follow
/// the header.
pub const MAX_SCREEN_HEIGHT: usize = 120;

/// A rectangle cut for a screen of at most [`MAX_SCREEN_HEIGHT`] rows fits one
/// draw report.
pub proof fn lemma_chunk_fits(d: ReportDrawableSpec, bw: nat, bh: nat, sw: nat, sh: nat)
    requires
        chunk_in_bounds(d, bw, bh, sw, sh),
        sh <= MAX_SCREEN_HEIGHT,
    ensures
        fits_report(d),
        d.w * stride_h(d) <= payload_bits(),
        d.h <= stride_h(d) <= sh + 7,
{
    let s = stride_h(d);
    assert((d.w - 1) * s + d.h <= d.w * s <= payload_bits()) by (nonlinear_arith)
        requires
            1 <= d.w <= 64,
            0 <= d.h <= s <= 127,
            payload_bits() == 8144,
    ;
}

/// Reading a bitmap back from its draw reports.
///
/// Let a bitmap lie wholly inside the screen at `(x, y)`, and let `(px, py)`
/// be one of its pixels. Then the rectangle with number `px / 64` covers the
/// pixel, lands at the pixel's place on the screen, and in every report that
/// encodes the rectangle the bit for the pixel's column and row is the pixel.
pub proof fn lemma_reports_hold_every_pixel(
    bitmap: Raster,
    x: int,
    y: int,
    sw: nat,
    sh: nat,
    px: int,
    py: int,
    report: Seq<u8>,
)
    requires
        bitmap.wf(),
        0 <= x,
        0 <= y,
        x + bitmap.w <= sw,
        y + bitmap.h <= sh,
        sw <= usize::MAX,
        sh <= MAX_SCREEN_HEIGHT,
        bitmap.contains(px, py),
        report_encodes(
            report,
            bitmap,
            report_chunks(bitmap.w, bitmap.h, x, y, sw, sh)[px / (SCREEN_REPORT_SPLIT_SZ as int)],
        ),
    ensures
        ({
            let chunks = report_chunks(bitmap.w, bitmap.h, x, y, sw, sh);
            let i = px / (SCREEN_REPORT_SPLIT_SZ as int);
            let d = chunks[i];
            &&& 0 <= i < chunks.len()
            &&& d.src_x <= px < d.src_x + d.w
            &&& d.src_y <= py < d.src_y + d.h
            &&& d.dst_x - d.src_x == x
            &&& d.dst_y - d.src_y == y
            &&& 0 <= (px - d.src_x) * stride_h(d) + (py - d.src_y) < payload_bits()
            &&& report_bit(report, (px - d.src_x) * stride_h(d) + (py - d.src_y)) == bitmap.pixel(px, py)
        }),
{
    let chunks = report_chunks(bitmap.w, bitmap.h, x, y, sw, sh);
    let i = px / (SCREEN_REPORT_SPLIT_SZ as int);
    let d = chunks[i];
    assert(clip(x, sw as int) == x && clip(x + bitmap.w, sw as int) == x + bitmap.w);
    assert(clip(y, sh as int) == y && clip(y + bitmap.h, sh as int) == y + bitmap.h);
    assert(0 <= i < chunk_count(bitmap.w as int));
    assert(i * SCREEN_REPORT_SPLIT_SZ <= px < i * SCREEN_REPORT_SPLIT_SZ + SCREEN_REPORT_SPLIT_SZ);
    assert(d.src_x == i * SCREEN_REPORT_SPLIT_SZ);
    assert(d.src_y == 0 && d.h == bitmap.h);
    assert(chunk_in_bounds(d, bitmap.w, bitmap.h, sw, sh));
    lemma_chunk_fits(d, bitmap.w, bitmap.h, sw, sh);
    let s = stride_h(d);
    let col = px - d.src_x;
    let row = py - d.src_y;
    lemma_index_in_bounds(row, col, s, d.w as int);
    lemma_index_split(row, col, s);
    assert(d.w * s == s * d.w) by (nonlinear_arith);
    assert(report_bit(report, col * s + row) == payload_bit(bitmap, d, col * s + row));
}

/// Reading a bitmap back from its draw reports, the other way round: a bit
/// that is set in a report which encodes a rectangle stands for a pixel of
/// that rectangle, and the pixel is set in the bitmap.
pub proof fn lemma_report_bits_are_pixels(bitmap: Raster, d: ReportDrawableSpec, report: Seq<u8>, n: int)
    requires
        report_encodes(report, bitmap, d),
        0 <= n < payload_bits(),
        report_bit(report, n),
    ensures
        0 <= n / stride_h(d) < d.w,
        0 <= n % stride_h(d) < d.h,
        bitmap.pixel(d.src_x + n / stride_h(d), d.src_y + n % stride_h(d)),
{
    assert(report_bit(report, n) == payload_bit(bitmap, d, n));
}

/// The draw reports that show `bitmap` with its top left corner at `(x, y)` on
/// a `screen_w` by `screen_h` screen: one report for each rectangle of
/// [`prepare_drawables_for_report`], in its order.
pub fn draw_reports(bitmap: &Bitmap, x: isize, y: isize, screen_w: usize, screen_h: usize) -> (reports: Vec<
    DrawReport,
>)
    requires
        bitmap.wf(),
        screen_h <= MAX_SCREEN_HEIGHT,
    ensures
        reports.len() == report_chunks(
            bitmap.w as nat,
            bitmap.h as nat,
            x as int,
            y as int,
            screen_w as nat,
            screen_h as nat,
        ).len(),
        forall|i: int|
            0 <= i < reports.len() ==> report_encodes(
                (#[trigger] reports[i])@,
                bitmap@,
                report_chunks(
                    bitmap.w as nat,
                    bitmap.h as nat,
                    x as int,
                    y as int,
                    screen_w as nat,
                    screen_h as nat,
                )[i],
            ),
{
    let drawables = prepare_drawables_for_report(bitmap, x, y, screen_w, screen_h);
    let mut reports: Vec<DrawReport> = Vec::with_capacity(drawables.len());
    let mut i: usize = 0;
    while i < drawables.len()
        invariant
            bitmap.wf(),
            screen_h <= MAX_SCREEN_HEIGHT,
            i <= drawables.len(),
            reports.len() == i,
            forall|k: int|
                0 <= k < drawables.len() ==> chunk_in_bounds(
                    #[trigger] drawables[k],
                    bitmap.w as nat,
                    bitmap.h as nat,
                    screen_w as nat,
                    screen_h as nat,
                ),
            forall|k: int| 0 <= k < i ==> report_encodes((#[trigger] reports[k])@, bitmap@, drawables[k]),
        decreases drawables.len() - i,
    {
        let d = drawables[i];
        proof {
            lemma_chunk_fits(d, bitmap.w as nat, bitmap.h as nat, screen_w as nat, screen_h as nat);
        }
        let report = create_report_for_drawable(bitmap, d);
        reports.push(report);
        i += 1;
    }
    reports
}

} // verus!
