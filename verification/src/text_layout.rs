//! Where lines of text go on the screen.

use crate::bitmap::Bitmap;
use crate::layer::{
    AnimState, DrawLayer, DrawLayerState, LayerEntry, LayerId, LayerStore, ScrollState, TextOverflowMode,
    SCROLL_MARGIN,
};
use std::sync::Arc;
use vstd::prelude::*;

verus! {

/// Half of `v`, rounded towards zero.
pub open spec fn half(v: int) -> int {
    if v >= 0 {
        v / 2
    } else {
        -((-v) / 2)
    }
}

/// The coordinate nearest to `v`.
pub open spec fn coordinate(v: int) -> isize {
    if v < isize::MIN {
        isize::MIN
    } else if v > isize::MAX {
        isize::MAX
    } else {
        v as isize
    }
}

/// The offset that centres a length of `inner` in a length of `outer`.
pub open spec fn centered(outer: usize, inner: usize) -> int {
    half(outer - inner)
}

/// Where to put a bitmap of `w` by `h` pixels so that it sits in the middle
/// of a `width` by `height` screen.
pub open spec fn center_spec(width: usize, height: usize, w: usize, h: usize) -> (isize, isize) {
    (centered(width, w) as isize, centered(height, h) as isize)
}

/// The top of line `i` of `count` lines of text, each `line_height` tall:
/// lines follow each other downwards from `y`, or, where `y` is not given,
/// from the top of a block that is centered on a screen `height` tall.
pub open spec fn line_top(height: usize, line_height: usize, count: nat, i: int, y: Option<isize>) -> isize {
    let top = match y {
        Some(v) => v as int,
        None => half(height - line_height * count),
    };
    coordinate(top + i * line_height)
}

/// The left edge of a line of text `w` wide: `x`, or, where `x` is not
/// given, the place that centers the line on a screen `width` wide.
pub open spec fn line_left(width: usize, w: usize, x: Option<isize>) -> isize {
    match x {
        Some(v) => v,
        None => coordinate(centered(width, w)),
    }
}

/// Whether a line of text `w` wide scrolls on a screen `width` wide: it does
/// where it is as wide as the screen or wider and scrolling is asked for.
pub open spec fn scrolls(width: usize, w: usize, mode: TextOverflowMode) -> bool {
    w >= width && mode == TextOverflowMode::Scroll
}

/// The layer for line `i` of `count` lines of text.
///
/// A line that is as wide as the screen or wider scrolls, where scrolling is
/// asked for; every other line is a still picture. `shift` says whether the
/// layer moves with the burn-in shift.
pub open spec fn text_layer(
    width: usize,
    height: usize,
    bitmap: Arc<Bitmap>,
    line_height: usize,
    count: nat,
    i: int,
    x: Option<isize>,
    y: Option<isize>,
    shift: bool,
    mode: TextOverflowMode,
) -> DrawLayer {
    let top = line_top(height, line_height, count, i, y);
    let left = line_left(width, bitmap.w, x);
    if scrolls(width, bitmap.w, mode) {
        if shift {
            DrawLayer::Scroll { bitmap, y: top }
        } else {
            DrawLayer::ScrollNoShift { bitmap, y: top }
        }
    } else {
        if shift {
            DrawLayer::Image { bitmap, x: left, y: top }
        } else {
            DrawLayer::ImageNoShift { bitmap, x: left, y: top }
        }
    }
}

/// The layers for all the lines, named from `counter + 1` upwards.
pub open spec fn text_entries(
    width: usize,
    height: usize,
    counter: usize,
    bitmaps: Seq<Arc<Bitmap>>,
    line_height: usize,
    x: Option<isize>,
    y: Option<isize>,
    shift: bool,
    mode: TextOverflowMode,
    now: u64,
) -> Seq<LayerEntry> {
    Seq::new(
        bitmaps.len(),
        |i: int|
            LayerEntry {
                id: LayerId((counter + 1 + i) as usize),
                state: DrawLayerState::fresh(
                    text_layer(width, height, bitmaps[i], line_height, bitmaps.len(), i, x, y, shift, mode),
                    now,
                ),
            },
    )
}

/// What the layers of a text are, line by line.
///
/// Line `i` gets the name `counter + 1 + i`, so the names rise with the
/// lines. Its layer holds the line's bitmap and enters the store not
/// scrolled, not resting and with no frame stepped through. It is a scrolling
/// layer exactly where the line is as wide as the screen or wider and
/// scrolling is asked for, and it moves with the burn-in shift exactly where
/// `shift` is set.
pub proof fn lemma_text_entries(
    width: usize,
    height: usize,
    counter: usize,
    bitmaps: Seq<Arc<Bitmap>>,
    line_height: usize,
    x: Option<isize>,
    y: Option<isize>,
    shift: bool,
    mode: TextOverflowMode,
    now: u64,
    i: int,
)
    requires
        0 <= i < bitmaps.len(),
        counter + bitmaps.len() <= usize::MAX,
    ensures
        ({
            let entry = text_entries(width, height, counter, bitmaps, line_height, x, y, shift, mode, now)[i];
            let wide = scrolls(width, bitmaps[i].w, mode);
            let top = line_top(height, line_height, bitmaps.len(), i, y);
            &&& entry.id.0 == counter + 1 + i
            &&& entry.state.scroll == (ScrollState { x: 0, pause_until: None })
            &&& entry.state.anim == (AnimState { ticks: 0, next_update: now })
            &&& wide && shift ==> entry.state.layer == (DrawLayer::Scroll { bitmap: bitmaps[i], y: top })
            &&& wide && !shift ==> entry.state.layer == (DrawLayer::ScrollNoShift { bitmap: bitmaps[i], y: top })
            &&& !wide && shift ==> entry.state.layer == (DrawLayer::Image {
                bitmap: bitmaps[i],
                x: line_left(width, bitmaps[i].w, x),
                y: top,
            })
            &&& !wide && !shift ==> entry.state.layer == (DrawLayer::ImageNoShift {
                bitmap: bitmaps[i],
                x: line_left(width, bitmaps[i].w, x),
                y: top,
            })
        }),
{
}

/// Where centered text lies.
///
/// A line `w` wide that is given no place starts `(width - w) / 2` from the
/// left, rounded towards zero. Line `i` of `count` lines starts at
/// `(height - count * line_height) / 2 + i * line_height` from the top, where
/// that number is a coordinate.
pub proof fn lemma_centered_text(width: usize, height: usize, w: usize, line_height: usize, count: nat, i: int)
    requires
        0 <= i < count,
        isize::MIN <= half(height - line_height * count) + i * line_height <= isize::MAX,
    ensures
        line_left(width, w, None) == half(width - w),
        line_top(height, line_height, count, i, None) == half(height - line_height * count) + i * line_height,
{
}

/// Half of `v`, rounded towards zero.
fn halved(v: i128) -> (r: i128)
    requires
        i128::MIN < v,
    ensures
        r == half(v as int),
{
    if v >= 0 {
        v / 2
    } else {
        -((-v) / 2)
    }
}

/// The coordinate nearest to `v`.
fn to_coordinate(v: i128) -> (r: isize)
    ensures
        r == coordinate(v as int),
{
    if v < isize::MIN as i128 {
        isize::MIN
    } else if v > isize::MAX as i128 {
        isize::MAX
    } else {
        v as isize
    }
}

/// Where to put `bitmap` so that it sits in the middle of a `width` by
/// `height` screen: half of what is left over in each direction, rounded
/// towards zero.
pub fn center_bitmap(width: usize, height: usize, bitmap: &Bitmap) -> (r: (isize, isize))
    ensures
        r == center_spec(width, height, bitmap.w, bitmap.h),
        r.0 == centered(width, bitmap.w),
        r.1 == centered(height, bitmap.h),
{
    let x = halved(width as i128 - bitmap.w as i128);
    let y = halved(height as i128 - bitmap.h as i128);
    (x as isize, y as isize)
}

/// Puts lines of text on top of the layers of `store`, one layer per line,
/// and returns their names in the order of the lines.
///
/// `bitmaps` holds the lines as they were drawn, and `line_height` is the
/// height that the font gives a line. Each line becomes the layer that
/// [`text_layer`] describes.
pub fn add_text_layers(
    width: usize,
    height: usize,
    store: &mut LayerStore,
    bitmaps: Vec<Arc<Bitmap>>,
    line_height: usize,
    x: Option<isize>,
    y: Option<isize>,
    shift: bool,
    mode: TextOverflowMode,
    now: u64,
) -> (ids: Vec<LayerId>)
    requires
        old(store).wf(),
        old(store).layer_counter + bitmaps.len() <= usize::MAX,
        line_height * bitmaps.len() <= isize::MAX,
        forall|i: int|
            0 <= i < bitmaps.len() ==> (#[trigger] bitmaps[i]).wf() && (scrolls(width, bitmaps[i].w, mode)
                ==> bitmaps[i].w + SCROLL_MARGIN < isize::MAX),
    ensures
        final(store).wf(),
        final(store).layer_counter == old(store).layer_counter + bitmaps.len(),
        final(store).layers@ == old(store).layers@ + text_entries(
            width,
            height,
            old(store).layer_counter,
            bitmaps@,
            line_height,
            x,
            y,
            shift,
            mode,
            now,
        ),
        ids.len() == bitmaps.len(),
        forall|i: int| 0 <= i < ids.len() ==> #[trigger] ids[i] == LayerId((old(store).layer_counter + 1 + i) as usize),
{
    let count = bitmaps.len();
    let ghost want = text_entries(
        width,
        height,
        store.layer_counter,
        bitmaps@,
        line_height,
        x,
        y,
        shift,
        mode,
        now,
    );
    assert(line_height as i128 * count as i128 == line_height * bitmaps.len()) by (nonlinear_arith)
        requires
            count == bitmaps.len(),
    ;
    let block: i128 = line_height as i128 * count as i128;
    let top: i128 = match y {
        Some(v) => v as i128,
        None => halved(height as i128 - block),
    };
    let mut ids: Vec<LayerId> = Vec::with_capacity(count);
    let mut i: usize = 0;
    while i < count
        invariant
            store.wf(),
            i <= count,
            count == bitmaps.len(),
            store.layer_counter == old(store).layer_counter + i,
            old(store).layer_counter + count <= usize::MAX,
            line_height * count <= isize::MAX,
            forall|k: int|
                0 <= k < bitmaps.len() ==> (#[trigger] bitmaps[k]).wf() && (scrolls(width, bitmaps[k].w, mode)
                    ==> bitmaps[k].w + SCROLL_MARGIN < isize::MAX),
            top == (match y {
                Some(v) => v as int,
                None => half(height - line_height * count),
            }),
            want == text_entries(
                width,
                height,
                old(store).layer_counter,
                bitmaps@,
                line_height,
                x,
                y,
                shift,
                mode,
                now,
            ),
            store.layers@ == old(store).layers@ + want.take(i as int),
            ids.len() == i,
            forall|k: int| 0 <= k < i ==> #[trigger] ids[k] == LayerId((old(store).layer_counter + 1 + k) as usize),
        decreases count - i,
    {
        let bitmap = share(&bitmaps[i]);
        assert(0 <= (i as i128) * (line_height as i128) <= line_height * count) by (nonlinear_arith)
            requires
                0 <= i < count,
                0 <= line_height,
        ;
        let line_y = to_coordinate(top + (i as i128) * (line_height as i128));
        let line_x = match x {
            Some(v) => v,
            None => to_coordinate(halved(width as i128 - bitmap.w as i128)),
        };
        let wide = bitmap.w >= width && match mode {
            TextOverflowMode::Scroll => true,
            TextOverflowMode::Clip => false,
        };
        let layer = if wide {
            if shift {
                DrawLayer::Scroll { bitmap, y: line_y }
            } else {
                DrawLayer::ScrollNoShift { bitmap, y: line_y }
            }
        } else {
            if shift {
                DrawLayer::Image { bitmap, x: line_x, y: line_y }
            } else {
                DrawLayer::ImageNoShift { bitmap, x: line_x, y: line_y }
            }
        };
        assert(layer == text_layer(
            width,
            height,
            bitmaps[i as int],
            line_height,
            bitmaps.len() as nat,
            i as int,
            x,
            y,
            shift,
            mode,
        ));
        let id = store.add_layer(layer, now);
        ids.push(id);
        proof {
            assert(want.take(i + 1) =~= want.take(i as int).push(want[i as int]));
            assert(store.layers@ =~= old(store).layers@ + want.take(i + 1));
        }
        i += 1;
    }
    proof {
        assert(want.take(count as int) =~= want);
    }
    ids
}

/// `Arc::clone`: another handle to the same bitmap.
#[verifier::external_body]
pub(crate) fn share(bitmap: &Arc<Bitmap>) -> (r: Arc<Bitmap>)
    ensures
        r == *bitmap,
{
    Arc::clone(bitmap)
}

} // verus!
