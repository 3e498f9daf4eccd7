//! The render worker's decisions: what a tick does to the worker's state and
//! to the layers, which picture it composes, and when the picture is sent.
//!
//! The worker's loop runs outside this crate. It reads the clock, talks to
//! the device and sleeps; before and after each of these it asks the
//! functions below what to do. Instants and delays count nanoseconds.

use crate::anim::{advance_animation_state, advance_spec, later};
use crate::bitmap::{Bitmap, Raster};
use crate::event::DeviceEvent;
use crate::layer::{
    layers_wf, scroll_width, DrawLayer, DrawLayerState, LayerEntry, LayerId, LayerStore, ScrollState, ShiftMode,
    SCROLL_MARGIN,
};
use crate::text_layout::share;
use std::sync::Arc;
use vstd::prelude::*;

verus! {

/// How long the picture stays in one place under [`ShiftMode::Simple`].
pub const OLED_SHIFT_PERIOD: u64 = 90_000_000_000;

/// The number of places that the picture moves through.
pub const OLED_SHIFT_COUNT: usize = 9;

/// How long the worker waits between two attempts to reconnect.
pub const RECONNECT_PERIOD: u64 = 1_000_000_000;

/// How long a scrolling layer rests after each revolution.
pub const SCROLL_REVOLUTION_PAUSE: u64 = 900_000_000;

/// After how long an unchanged picture is sent again.
pub const FORCE_REDRAW_PERIOD: u64 = 1_000_000_000;

/// The number of nanoseconds in a second.
pub const NANOS_PER_SECOND: u64 = 1_000_000_000;

/// The widest screen that the worker plans for: the header of a draw report
/// names a column in one byte.
pub const MAX_SCREEN_WIDTH: usize = 256;

/// What a client asks of the worker.
#[derive(Clone, Copy, Debug, PartialEq, Eq, Structural)]
pub enum DrawCommand {
    Play,
    Pause,
    SetVolume(u8),
    SetShiftMode(ShiftMode),
    Stop,
}

/// What the worker tells its client.
#[derive(Clone, Copy, Debug, PartialEq, Eq, Structural)]
pub enum DrawEvent {
    DeviceDisconnected,
    DeviceReconnected,
    DeviceEvent(DeviceEvent),
}

/// What the worker's loop has to do after a command.
#[derive(Clone, Copy, Debug, PartialEq, Eq, Structural)]
pub enum CommandEffect {
    /// Nothing; the command only changed the worker's state.
    Nothing,
    /// Set the base station volume, and report back if that fails.
    SendVolume(u8),
    /// Leave the loop when this tick is over.
    StopAfterFrame,
}

/// One drawing step of a frame.
pub enum RenderOp {
    /// Draw the bitmap once.
    Blit { bitmap: Arc<Bitmap>, x: isize, y: isize },
    /// Draw the bitmap `dupes + 1` times, each copy `scroll_w` to the right
    /// of the one before.
    Scroll { bitmap: Arc<Bitmap>, x: isize, y: isize, scroll_w: isize, dupes: usize },
}

impl RenderOp {
    /// The bitmap is well-formed and every copy's position is an `isize`.
    pub open spec fn wf(&self) -> bool {
        match *self {
            RenderOp::Blit { bitmap, x, y } => bitmap.wf(),
            RenderOp::Scroll { bitmap, x, y, scroll_w, dupes } => bitmap.wf() && scroll_w >= 1 && dupes
                * scroll_w <= isize::MAX && x + dupes * scroll_w <= isize::MAX,
        }
    }
}

impl RenderOp {
    /// Whether the step is well-formed; see [`RenderOp::wf`].
    pub fn is_valid(&self) -> (r: bool)
        ensures
            r == self.wf(),
    {
        match self {
            RenderOp::Blit { bitmap, x, y } => bitmap.is_valid(),
            RenderOp::Scroll { bitmap, x, y, scroll_w, dupes } => {
                if !bitmap.is_valid() || *scroll_w < 1 {
                    return false;
                }
                match (*dupes as u128).checked_mul(*scroll_w as u128) {
                    Some(reach) => reach <= isize::MAX as u128 && *x as i128 + reach as i128 <= isize::MAX as i128,
                    None => false,
                }
            },
        }
    }
}

/// The place with number `index` on the path that the picture moves along: a
/// small loop around the middle.
pub open spec fn oled_shift_spec(index: int) -> (isize, isize) {
    if index == 0 {
        (0isize, 0isize)
    } else if index == 1 {
        (0isize, -1isize)
    } else if index == 2 {
        (1isize, -1isize)
    } else if index == 3 {
        (1isize, 0isize)
    } else if index == 4 {
        (1isize, 1isize)
    } else if index == 5 {
        (0isize, 1isize)
    } else if index == 6 {
        (-1isize, 1isize)
    } else if index == 7 {
        (-1isize, 0isize)
    } else {
        (-1isize, -1isize)
    }
}

/// The place with number `index` on the path that the picture moves along.
pub fn oled_shift(index: usize) -> (r: (isize, isize))
    ensures
        r == oled_shift_spec(index as int),
        -1 <= r.0 <= 1,
        -1 <= r.1 <= 1,
{
    if index == 0 {
        (0, 0)
    } else if index == 1 {
        (0, -1)
    } else if index == 2 {
        (1, -1)
    } else if index == 3 {
        (1, 0)
    } else if index == 4 {
        (1, 1)
    } else if index == 5 {
        (0, 1)
    } else if index == 6 {
        (-1, 1)
    } else if index == 7 {
        (-1, 0)
    } else {
        (-1, -1)
    }
}

/// The time from `earlier` to `now`, and zero where `earlier` is not earlier.
pub open spec fn elapsed(now: u64, earlier: u64) -> int {
    if now >= earlier {
        now - earlier
    } else {
        0
    }
}

/// A coordinate moved by the burn-in shift `by`. A coordinate at the edge of
/// what an `isize` holds stays there.
pub open spec fn shifted(v: isize, by: isize) -> isize {
    if v + by > isize::MAX {
        isize::MAX
    } else if v + by < isize::MIN {
        isize::MIN
    } else {
        (v + by) as isize
    }
}

/// A coordinate moved by the burn-in shift `by`; see [`shifted`].
fn shift_by(v: isize, by: isize) -> (r: isize)
    requires
        -1 <= by <= 1,
    ensures
        r == shifted(v, by),
{
    if by > 0 && v == isize::MAX {
        isize::MAX
    } else if by < 0 && v == isize::MIN {
        isize::MIN
    } else {
        v + by
    }
}

/// The state of a scrolling layer after a tick at the instant `now`, where
/// one revolution is `scroll_w` wide.
///
/// While the layer rests nothing changes. Otherwise it moves one pixel to
/// the left; when that completes a revolution it starts over and rests for
/// [`SCROLL_REVOLUTION_PAUSE`].
pub open spec fn scroll_step(scroll: ScrollState, scroll_w: int, now: u64) -> ScrollState {
    if scroll.pause_until is Some && now < scroll.pause_until->0 {
        scroll
    } else if scroll.x - 1 <= -scroll_w {
        ScrollState { x: (scroll.x - 1 + scroll_w) as isize, pause_until: Some(later(now, SCROLL_REVOLUTION_PAUSE)) }
    } else {
        ScrollState { x: (scroll.x - 1) as isize, pause_until: scroll.pause_until }
    }
}

/// The number of copies, beyond the first, that fill a screen `screen_w`
/// wide with a revolution `scroll_w` wide.
pub open spec fn scroll_dupes(screen_w: usize, scroll_w: int) -> int {
    1 + (screen_w as int) / scroll_w
}

/// What a tick at the instant `now` does with one layer: the layer's next
/// state, and the drawing step that shows it in this frame, if any.
///
/// `(sx, sy)` is the burn-in shift, `screen_w` the width of the screen and
/// `frame_delay` the time from one frame to the next.
pub open spec fn plan_layer_spec(
    state: DrawLayerState,
    now: u64,
    sx: isize,
    sy: isize,
    screen_w: usize,
    frame_delay: u64,
) -> (DrawLayerState, Option<RenderOp>) {
    match state.layer {
        DrawLayer::Image { bitmap, x, y } => (
            state,
            Some(RenderOp::Blit { bitmap, x: shifted(x, sx), y: shifted(y, sy) }),
        ),
        DrawLayer::ImageNoShift { bitmap, x, y } => (state, Some(RenderOp::Blit { bitmap, x, y })),
        DrawLayer::Animation { frames, x, y, follow_fps } => {
            let (anim, shown) = advance_spec(state.anim, frames@, follow_fps, now, frame_delay);
            (
                DrawLayerState { layer: state.layer, anim, scroll: state.scroll },
                match shown {
                    Some(i) => Some(
                        RenderOp::Blit { bitmap: frames[i as int].bitmap, x: shifted(x, sx), y: shifted(y, sy) },
                    ),
                    None => None,
                },
            )
        },
        DrawLayer::Scroll { bitmap, y } => {
            let scroll_w = scroll_width(bitmap.w as int);
            (
                DrawLayerState {
                    layer: state.layer,
                    anim: state.anim,
                    scroll: scroll_step(state.scroll, scroll_w, now),
                },
                Some(
                    RenderOp::Scroll {
                        bitmap,
                        x: (state.scroll.x + sx) as isize,
                        y: shifted(y, sy),
                        scroll_w: scroll_w as isize,
                        dupes: scroll_dupes(screen_w, scroll_w) as usize,
                    },
                ),
            )
        },
        DrawLayer::ScrollNoShift { bitmap, y } => {
            let scroll_w = scroll_width(bitmap.w as int);
            (
                DrawLayerState {
                    layer: state.layer,
                    anim: state.anim,
                    scroll: scroll_step(state.scroll, scroll_w, now),
                },
                Some(
                    RenderOp::Scroll {
                        bitmap,
                        x: state.scroll.x,
                        y,
                        scroll_w: scroll_w as isize,
                        dupes: scroll_dupes(screen_w, scroll_w) as usize,
                    },
                ),
            )
        },
    }
}

/// Moves a scrolling layer on by one tick; see [`scroll_step`].
fn step_scroll(scroll: &mut ScrollState, scroll_w: isize, now: u64)
    requires
        1 <= scroll_w,
        -scroll_w < old(scroll).x <= 0,
    ensures
        *final(scroll) == scroll_step(*old(scroll), scroll_w as int, now),
        -scroll_w < final(scroll).x <= 0,
{
    let paused = match scroll.pause_until {
        Some(until) => now < until,
        None => false,
    };
    if !paused {
        scroll.x -= 1;
        if scroll.x <= -scroll_w {
            scroll.x += scroll_w;
            scroll.pause_until = Some(now.saturating_add(SCROLL_REVOLUTION_PAUSE));
        }
    }
}

/// The number of copies, beyond the first, that fill the screen.
fn count_dupes(screen_w: usize, scroll_w: isize, x: isize) -> (dupes: usize)
    requires
        screen_w <= MAX_SCREEN_WIDTH,
        1 <= scroll_w < isize::MAX,
        x <= 1,
    ensures
        dupes == scroll_dupes(screen_w, scroll_w as int),
        dupes * scroll_w <= isize::MAX,
        x + dupes * scroll_w <= isize::MAX,
{
    let per: usize = screen_w / (scroll_w as usize);
    proof {
        let q = screen_w as int / scroll_w as int;
        vstd::arithmetic::div_mod::lemma_fundamental_div_mod(screen_w as int, scroll_w as int);
        assert(q * scroll_w <= screen_w) by (nonlinear_arith)
            requires
                screen_w == scroll_w * q + screen_w as int % scroll_w as int,
                0 <= screen_w as int % scroll_w as int,
        ;
        assert((1 + q) * scroll_w == scroll_w + q * scroll_w) by (nonlinear_arith);
        if q >= 1 {
            assert(scroll_w <= q * scroll_w) by (nonlinear_arith)
                requires
                    q >= 1,
                    scroll_w >= 1,
            ;
        } else {
            assert(q == 0) by {
                vstd::arithmetic::div_mod::lemma_div_pos_is_pos(screen_w as int, scroll_w as int);
            }
            assert(q * scroll_w == 0) by (nonlinear_arith)
                requires
                    q == 0,
            ;
        }
    }
    1 + per
}

/// Plans what a tick at the instant `now` draws for one layer, and moves the
/// layer's state on.
#[verifier::rlimit(50)]
pub fn plan_layer(
    state: &mut DrawLayerState,
    now: u64,
    shift_x: isize,
    shift_y: isize,
    screen_w: usize,
    frame_delay: u64,
) -> (op: Option<RenderOp>)
    requires
        old(state).wf(),
        -1 <= shift_x <= 1,
        -1 <= shift_y <= 1,
        screen_w <= MAX_SCREEN_WIDTH,
    ensures
        final(state).wf(),
        (*final(state), op) == plan_layer_spec(*old(state), now, shift_x, shift_y, screen_w, frame_delay),
        op is Some ==> op->0.wf(),
{
    match &state.layer {
        DrawLayer::Image { bitmap, x, y } => Some(
            RenderOp::Blit { bitmap: share(bitmap), x: shift_by(*x, shift_x), y: shift_by(*y, shift_y) },
        ),
        DrawLayer::ImageNoShift { bitmap, x, y } => Some(RenderOp::Blit { bitmap: share(bitmap), x: *x, y: *y }),
        DrawLayer::Animation { frames, x, y, follow_fps } => {
            match advance_animation_state(&mut state.anim, frames.as_slice(), *follow_fps, now, frame_delay) {
                Some(frame_idx) => Some(
                    RenderOp::Blit {
                        bitmap: share(&frames[frame_idx].bitmap),
                        x: shift_by(*x, shift_x),
                        y: shift_by(*y, shift_y),
                    },
                ),
                None => None,
            }
        },
        DrawLayer::Scroll { bitmap, y } => {
            let scroll_w: isize = bitmap.w as isize + SCROLL_MARGIN;
            let x = state.scroll.x + shift_x;
            let dupes = count_dupes(screen_w, scroll_w, x);
            let op = RenderOp::Scroll { bitmap: share(bitmap), x, y: shift_by(*y, shift_y), scroll_w, dupes };
            step_scroll(&mut state.scroll, scroll_w, now);
            Some(op)
        },
        DrawLayer::ScrollNoShift { bitmap, y } => {
            let scroll_w: isize = bitmap.w as isize + SCROLL_MARGIN;
            let x = state.scroll.x;
            let dupes = count_dupes(screen_w, scroll_w, x);
            let op = RenderOp::Scroll { bitmap: share(bitmap), x, y: *y, scroll_w, dupes };
            step_scroll(&mut state.scroll, scroll_w, now);
            Some(op)
        },
    }
}

/// The layers after a tick: each keeps its name and takes the next state
/// that [`plan_layer_spec`] gives it.
pub open spec fn planned_layers(
    layers: Seq<LayerEntry>,
    now: u64,
    sx: isize,
    sy: isize,
    screen_w: usize,
    frame_delay: u64,
) -> Seq<LayerEntry> {
    Seq::new(
        layers.len(),
        |i: int|
            LayerEntry {
                id: layers[i].id,
                state: plan_layer_spec(layers[i].state, now, sx, sy, screen_w, frame_delay).0,
            },
    )
}

/// The drawing steps of a frame: those of the layers, lowest layer first.
pub open spec fn planned_ops(
    layers: Seq<LayerEntry>,
    now: u64,
    sx: isize,
    sy: isize,
    screen_w: usize,
    frame_delay: u64,
) -> Seq<RenderOp>
    decreases layers.len(),
{
    if layers.len() == 0 {
        Seq::empty()
    } else {
        let below = planned_ops(layers.drop_last(), now, sx, sy, screen_w, frame_delay);
        match plan_layer_spec(layers.last().state, now, sx, sy, screen_w, frame_delay).1 {
            Some(op) => below.push(op),
            None => below,
        }
    }
}

/// Plans the frame of a tick at the instant `now`: moves every layer's state
/// on and returns the drawing steps, lowest layer first.
pub fn plan_frame(
    store: &mut LayerStore,
    now: u64,
    shift_x: isize,
    shift_y: isize,
    screen_w: usize,
    frame_delay: u64,
) -> (ops: Vec<RenderOp>)
    requires
        old(store).wf(),
        -1 <= shift_x <= 1,
        -1 <= shift_y <= 1,
        screen_w <= MAX_SCREEN_WIDTH,
    ensures
        final(store).wf(),
        final(store).layer_counter == old(store).layer_counter,
        final(store).layers@ == planned_layers(old(store).layers@, now, shift_x, shift_y, screen_w, frame_delay),
        ops@ == planned_ops(old(store).layers@, now, shift_x, shift_y, screen_w, frame_delay),
        forall|i: int| 0 <= i < ops.len() ==> (#[trigger] ops[i]).wf(),
{
    let ghost before = store.layers@;
    let ghost want = planned_layers(before, now, shift_x, shift_y, screen_w, frame_delay);
    let mut ops: Vec<RenderOp> = Vec::with_capacity(store.layers.len());
    let mut i: usize = 0;
    while i < store.layers.len()
        invariant
            -1 <= shift_x <= 1,
            -1 <= shift_y <= 1,
            screen_w <= MAX_SCREEN_WIDTH,
            before == old(store).layers@,
            layers_wf(before, store.layer_counter),
            store.layer_counter == old(store).layer_counter,
            want == planned_layers(before, now, shift_x, shift_y, screen_w, frame_delay),
            store.layers@.len() == before.len(),
            i <= before.len(),
            forall|k: int| 0 <= k < i ==> #[trigger] store.layers@[k] == want[k],
            forall|k: int| i <= k < before.len() ==> #[trigger] store.layers@[k] == before[k],
            forall|k: int| 0 <= k < i ==> (#[trigger] store.layers@[k]).state.wf(),
            ops@ == planned_ops(before.take(i as int), now, shift_x, shift_y, screen_w, frame_delay),
            forall|k: int| 0 <= k < ops.len() ==> (#[trigger] ops[k]).wf(),
        decreases before.len() - i,
    {
        proof {
            assert(before.take(i + 1).drop_last() =~= before.take(i as int));
            assert(store.layers@[i as int] == before[i as int]);
        }
        let op = plan_layer(&mut store.layers[i].state, now, shift_x, shift_y, screen_w, frame_delay);
        match op {
            Some(op) => {
                ops.push(op);
            },
            None => {},
        }
        i += 1;
    }
    proof {
        assert(before.take(before.len() as int) =~= before);
        assert(store.layers@ =~= want);
    }
    ops
}

/// The screen after the first `n` copies of a scrolling bitmap were drawn
/// with logical OR, the first at `(x, y)` and each next one `scroll_w`
/// further to the right.
pub open spec fn scroll_copies(screen: Raster, src: Raster, x: int, y: int, scroll_w: int, n: nat) -> Raster
    decreases n,
{
    if n == 0 {
        screen
    } else {
        scroll_copies(screen, src, x, y, scroll_w, (n - 1) as nat).blit(src, x + (n - 1) * scroll_w, y, false)
    }
}

/// The screen after one drawing step.
pub open spec fn apply_op(screen: Raster, op: RenderOp) -> Raster {
    match op {
        RenderOp::Blit { bitmap, x, y } => screen.blit(bitmap@, x as int, y as int, false),
        RenderOp::Scroll { bitmap, x, y, scroll_w, dupes } => scroll_copies(
            screen,
            bitmap@,
            x as int,
            y as int,
            scroll_w as int,
            (dupes + 1) as nat,
        ),
    }
}

/// The screen after the drawing steps were done in their order.
pub open spec fn composed(ops: Seq<RenderOp>, screen: Raster) -> Raster
    decreases ops.len(),
{
    if ops.len() == 0 {
        screen
    } else {
        apply_op(composed(ops.drop_last(), screen), ops.last())
    }
}

/// Draws a frame: an empty screen of `width` by `height` pixels on which the
/// drawing steps are done in their order, each with logical OR.
pub fn compose(ops: &Vec<RenderOp>, width: usize, height: usize) -> (screen: Bitmap)
    requires
        width * height <= usize::MAX,
        forall|i: int| 0 <= i < ops.len() ==> (#[trigger] ops[i]).wf(),
    ensures
        screen.wf(),
        screen.w == width,
        screen.h == height,
        screen@ == composed(ops@, Raster::filled(width as nat, height as nat, false)),
{
    let ghost empty = Raster::filled(width as nat, height as nat, false);
    let mut screen = Bitmap::new(width, height, false);
    let mut i: usize = 0;
    while i < ops.len()
        invariant
            i <= ops.len(),
            screen.wf(),
            screen.w == width,
            screen.h == height,
            forall|k: int| 0 <= k < ops.len() ==> (#[trigger] ops[k]).wf(),
            screen@ == composed(ops@.take(i as int), empty),
        decreases ops.len() - i,
    {
        proof {
            assert(ops@.take(i + 1).drop_last() =~= ops@.take(i as int));
        }
        let ghost under = screen@;
        match &ops[i] {
            RenderOp::Blit { bitmap, x, y } => {
                screen.blit(bitmap, *x, *y, false);
            },
            RenderOp::Scroll { bitmap, x, y, scroll_w, dupes } => {
                let mut n: usize = 0;
                while n <= *dupes
                    invariant
                        n <= *dupes + 1,
                        bitmap.wf(),
                        screen.wf(),
                        screen.w == width,
                        screen.h == height,
                        *scroll_w >= 1,
                        *dupes * *scroll_w <= isize::MAX,
                        *x + *dupes * *scroll_w <= isize::MAX,
                        under.wf(),
                        screen@ == scroll_copies(under, bitmap@, *x as int, *y as int, *scroll_w as int, n as nat),
                    decreases *dupes + 1 - n,
                {
                    proof {
                        assert(0 <= n <= n * *scroll_w <= *dupes * *scroll_w) by (nonlinear_arith)
                            requires
                                0 <= n <= *dupes,
                                *scroll_w >= 1,
                        ;
                        assert((n as isize) * *scroll_w == n * *scroll_w);
                    }
                    let offset: isize = (n as isize) * *scroll_w;
                    screen.blit(bitmap, *x + offset, *y, false);
                    n += 1;
                }
            },
        }
        i += 1;
    }
    proof {
        assert(ops@.take(ops.len() as int) =~= ops@);
    }
    screen
}

/// What the worker remembers from one tick to the next.
pub struct RenderWorker {
    /// The time from one frame to the next.
    pub frame_delay: u64,
    /// Whether frames are drawn.
    pub playing: bool,
    /// Whether the picture is moved about to spare the display.
    pub shift_mode: ShiftMode,
    /// The number of the place that the picture is moved to.
    pub oled_shift: usize,
    /// The instant at which the picture was last moved.
    pub last_shift: u64,
    /// Whether the device is taken to be connected.
    pub connected: bool,
    /// The instant of the last attempt to reconnect.
    pub last_connect_attempt: u64,
    /// The picture that was last sent.
    pub prev_screen: Bitmap,
    /// The instant at which a picture was last sent.
    pub last_frame_time: u64,
}

/// The number of the place that follows place `index`.
pub open spec fn next_shift(index: usize) -> usize {
    ((index + 1) % (OLED_SHIFT_COUNT as int)) as usize
}

/// Whether the picture moves on at the instant `now`: it does under
/// [`ShiftMode::Simple`] once it has been in place for
/// [`OLED_SHIFT_PERIOD`].
pub open spec fn shift_due(mode: ShiftMode, last_shift: u64, now: u64) -> bool {
    mode == ShiftMode::Simple && elapsed(now, last_shift) >= OLED_SHIFT_PERIOD
}

impl RenderWorker {
    /// The place number lies on the path and the last picture is well-formed.
    pub open spec fn wf(&self) -> bool {
        &&& self.oled_shift < OLED_SHIFT_COUNT
        &&& self.prev_screen.wf()
    }

    /// Whether the worker's state is well-formed; see [`RenderWorker::wf`].
    pub fn is_valid(&self) -> (r: bool)
        ensures
            r == self.wf(),
    {
        self.oled_shift < OLED_SHIFT_COUNT && self.prev_screen.is_valid()
    }

    /// The worker as it starts at the instant `now`, drawing `fps` frames a
    /// second: connected, not playing, the picture in place, nothing sent yet.
    pub fn new(fps: usize, now: u64) -> (r: RenderWorker)
        requires
            fps > 0,
        ensures
            r.wf(),
            r.frame_delay == NANOS_PER_SECOND as int / fps as int,
            !r.playing,
            r.shift_mode == ShiftMode::Off,
            r.oled_shift == 0,
            r.last_shift == now,
            r.connected,
            r.last_connect_attempt == now,
            r.prev_screen@ == Raster::filled(0, 0, false),
            r.last_frame_time == now,
    {
        let per_second: u64 = if fps > NANOS_PER_SECOND as usize {
            0
        } else {
            NANOS_PER_SECOND / (fps as u64)
        };
        proof {
            if fps > NANOS_PER_SECOND {
                vstd::arithmetic::div_mod::lemma_basic_div(NANOS_PER_SECOND as int, fps as int);
            }
        }
        RenderWorker {
            frame_delay: per_second,
            playing: false,
            shift_mode: ShiftMode::Off,
            oled_shift: 0,
            last_shift: now,
            connected: true,
            last_connect_attempt: now,
            prev_screen: Bitmap::new(0, 0, false),
            last_frame_time: now,
        }
    }

    /// Takes one command from the client and says what the loop has to do
    /// for it.
    ///
    /// `Play` and `Pause` switch the drawing on and off, `SetShiftMode`
    /// changes the mode, and `Stop` ends the loop after this tick. A volume
    /// is sent only while the device is connected.
    pub fn handle_command(&mut self, cmd: DrawCommand) -> (effect: CommandEffect)
        ensures
            *final(self) == (match cmd {
                DrawCommand::Play => RenderWorker { playing: true, ..*old(self) },
                DrawCommand::Pause => RenderWorker { playing: false, ..*old(self) },
                DrawCommand::SetShiftMode(mode) => RenderWorker { shift_mode: mode, ..*old(self) },
                _ => *old(self),
            }),
            effect == (match cmd {
                DrawCommand::SetVolume(volume) => if old(self).connected {
                    CommandEffect::SendVolume(volume)
                } else {
                    CommandEffect::Nothing
                },
                DrawCommand::Stop => CommandEffect::StopAfterFrame,
                _ => CommandEffect::Nothing,
            }),
    {
        match cmd {
            DrawCommand::Play => {
                self.playing = true;
                CommandEffect::Nothing
            },
            DrawCommand::Pause => {
                self.playing = false;
                CommandEffect::Nothing
            },
            DrawCommand::SetVolume(volume) => {
                if self.connected {
                    CommandEffect::SendVolume(volume)
                } else {
                    CommandEffect::Nothing
                }
            },
            DrawCommand::SetShiftMode(mode) => {
                self.shift_mode = mode;
                CommandEffect::Nothing
            },
            DrawCommand::Stop => CommandEffect::StopAfterFrame,
        }
    }

    /// Records that the device failed. The first failure while connected
    /// marks the device as disconnected and is told to the client; a failure
    /// while disconnected is not told again.
    pub fn device_failed(&mut self) -> (event: Option<DrawEvent>)
        ensures
            *final(self) == (RenderWorker { connected: false, ..*old(self) }),
            event == (if old(self).connected {
                Some(DrawEvent::DeviceDisconnected)
            } else {
                None
            }),
    {
        if self.connected {
            self.connected = false;
            Some(DrawEvent::DeviceDisconnected)
        } else {
            None
        }
    }

    /// Whether to try to reconnect at the instant `now`: the device is
    /// disconnected and the last attempt is a second or more ago. Where it is
    /// time, the attempt is recorded.
    pub fn reconnect_due(&mut self, now: u64) -> (due: bool)
        ensures
            due == (!old(self).connected && elapsed(now, old(self).last_connect_attempt) >= RECONNECT_PERIOD),
            *final(self) == (if due {
                RenderWorker { last_connect_attempt: now, ..*old(self) }
            } else {
                *old(self)
            }),
    {
        if !self.connected && now.saturating_sub(self.last_connect_attempt) >= RECONNECT_PERIOD {
            self.last_connect_attempt = now;
            true
        } else {
            false
        }
    }

    /// Records that reconnecting succeeded, which is told to the client.
    pub fn reconnected(&mut self) -> (event: DrawEvent)
        ensures
            *final(self) == (RenderWorker { connected: true, ..*old(self) }),
            event == DrawEvent::DeviceReconnected,
    {
        self.connected = true;
        DrawEvent::DeviceReconnected
    }

    /// Whether this tick draws a frame: the device is connected and the
    /// client has asked to play.
    pub fn should_render(&self) -> (r: bool)
        ensures
            r == (self.connected && self.playing),
    {
        self.connected && self.playing
    }

    /// Whether this tick reads the device's events: the device is connected.
    pub fn should_poll_events(&self) -> (r: bool)
        ensures
            r == self.connected,
    {
        self.connected
    }

    /// The burn-in shift for a frame drawn at the instant `now`.
    ///
    /// With the shift off the picture is not moved. Otherwise the picture
    /// moves to the next place on its path once it has been in place for 90
    /// seconds, and stays where it is before that.
    pub fn shift(&mut self, now: u64) -> (r: (isize, isize))
        requires
            old(self).wf(),
        ensures
            final(self).wf(),
            *final(self) == (if shift_due(old(self).shift_mode, old(self).last_shift, now) {
                RenderWorker { oled_shift: next_shift(old(self).oled_shift), last_shift: now, ..*old(self) }
            } else {
                *old(self)
            }),
            r == (match old(self).shift_mode {
                ShiftMode::Off => (0isize, 0isize),
                ShiftMode::Simple => oled_shift_spec(final(self).oled_shift as int),
            }),
            -1 <= r.0 <= 1,
            -1 <= r.1 <= 1,
    {
        match self.shift_mode {
            ShiftMode::Off => (0, 0),
            ShiftMode::Simple => {
                if now.saturating_sub(self.last_shift) >= OLED_SHIFT_PERIOD {
                    self.oled_shift = (self.oled_shift + 1) % OLED_SHIFT_COUNT;
                    self.last_shift = now;
                }
                oled_shift(self.oled_shift)
            },
        }
    }

    /// Whether the frame `screen`, finished at the instant `frame_time`, is
    /// sent to the device: it is when it differs from the picture last sent,
    /// and also when a second or more has passed since a picture was sent.
    pub fn should_present(&self, screen: &Bitmap, frame_time: u64) -> (send: bool)
        ensures
            send == (screen@ != self.prev_screen@ || elapsed(frame_time, self.last_frame_time)
                >= FORCE_REDRAW_PERIOD),
            elapsed(frame_time, self.last_frame_time) >= FORCE_REDRAW_PERIOD ==> send,
    {
        let force_redraw = frame_time.saturating_sub(self.last_frame_time) >= FORCE_REDRAW_PERIOD;
        *screen != self.prev_screen || force_redraw
    }

    /// Records that `screen`, finished at the instant `frame_time`, was sent
    /// to the device. A frame that could not be sent is not recorded, so it
    /// stays due.
    pub fn presented(&mut self, screen: Bitmap, frame_time: u64)
        ensures
            *final(self) == (RenderWorker { prev_screen: screen, last_frame_time: frame_time, ..*old(self) }),
    {
        self.prev_screen = screen;
        self.last_frame_time = frame_time;
    }

    /// How long to sleep at the end of a tick that took `frame_duration`:
    /// what is left of the frame delay.
    pub fn sleep_time(&self, frame_duration: u64) -> (r: u64)
        ensures
            r == (if frame_duration >= self.frame_delay {
                0
            } else {
                self.frame_delay - frame_duration
            }),
    {
        self.frame_delay.saturating_sub(frame_duration)
    }
}

/// Under [`ShiftMode::Simple`] the picture moves once in 90 seconds: after a
/// move at the instant `moved_at` the next move is due exactly from 90
/// seconds later on.
pub proof fn lemma_shift_period(moved_at: u64, now: u64)
    ensures
        shift_due(ShiftMode::Simple, moved_at, now) <==> now >= moved_at + OLED_SHIFT_PERIOD,
        !shift_due(ShiftMode::Off, moved_at, now),
{
}

/// An unchanged picture is sent again once a second: a frame that is
/// finished a second or more after the last one was sent is due, whatever it
/// shows.
pub proof fn lemma_refresh_period(sent_at: u64, frame_time: u64)
    ensures
        elapsed(frame_time, sent_at) >= FORCE_REDRAW_PERIOD <==> frame_time >= sent_at + NANOS_PER_SECOND,
{
}

/// The number of the place that the picture is at after it has moved `k`
/// times from the first place.
pub open spec fn shift_index_after(k: nat) -> usize
    decreases k,
{
    if k == 0 {
        0
    } else {
        next_shift(shift_index_after((k - 1) as nat))
    }
}

/// The picture visits the nine places in their order, over and over: after
/// `k` moves it is at place `k % 9`.
pub proof fn lemma_shift_visits_in_order(k: nat)
    ensures
        shift_index_after(k) == k % (OLED_SHIFT_COUNT as nat),
    decreases k,
{
    if k > 0 {
        lemma_shift_visits_in_order((k - 1) as nat);
        lemma_next_shift(shift_index_after((k - 1) as nat));
        vstd::arithmetic::div_mod::lemma_fundamental_div_mod((k - 1) as int, OLED_SHIFT_COUNT as int);
        let q = (k - 1) as int / (OLED_SHIFT_COUNT as int);
        let r = (k - 1) as int % (OLED_SHIFT_COUNT as int);
        if r == 8 {
            vstd::arithmetic::div_mod::lemma_fundamental_div_mod_converse(k as int, OLED_SHIFT_COUNT as int, q + 1, 0);
        } else {
            vstd::arithmetic::div_mod::lemma_fundamental_div_mod_converse(k as int, OLED_SHIFT_COUNT as int, q, r + 1);
        }
    }
}

/// A still picture that moves with the burn-in shift is drawn at its place
/// moved by the shift, and one that does not is drawn at its place. Neither
/// changes its state.
pub proof fn lemma_image_follows_shift(
    state: DrawLayerState,
    now: u64,
    sx: isize,
    sy: isize,
    screen_w: usize,
    frame_delay: u64,
)
    ensures
        match state.layer {
            DrawLayer::Image { bitmap, x, y } => {
                &&& plan_layer_spec(state, now, sx, sy, screen_w, frame_delay).0 == state
                &&& plan_layer_spec(state, now, sx, sy, screen_w, frame_delay).1 == Some(
                    RenderOp::Blit { bitmap, x: shifted(x, sx), y: shifted(y, sy) },
                )
                &&& isize::MIN <= x + sx <= isize::MAX ==> shifted(x, sx) == x + sx
                &&& isize::MIN <= y + sy <= isize::MAX ==> shifted(y, sy) == y + sy
            },
            DrawLayer::ImageNoShift { bitmap, x, y } => {
                &&& plan_layer_spec(state, now, sx, sy, screen_w, frame_delay).0 == state
                &&& plan_layer_spec(state, now, sx, sy, screen_w, frame_delay).1 == Some(
                    RenderOp::Blit { bitmap, x, y },
                )
            },
            _ => true,
        },
{
}

/// The rest of a scrolling layer.
///
/// The tick that completes a revolution puts the layer back to its first
/// position and lets it rest for 900 milliseconds, where the end of the rest
/// is an instant that the clock can tell. While it rests, a tick leaves the
/// layer where it is; the first tick from the end of the rest on moves it
/// again. Resting or not, the layer is drawn in every tick.
pub proof fn lemma_scroll_rest(
    state: DrawLayerState,
    now: u64,
    sx: isize,
    sy: isize,
    screen_w: usize,
    frame_delay: u64,
)
    requires
        state.wf(),
        state.layer.scroll_bitmap() is Some,
    ensures
        ({
            let scroll_w = scroll_width(state.layer.scroll_bitmap()->0.w as int);
            let resting = state.scroll.pause_until is Some && now < state.scroll.pause_until->0;
            let next = plan_layer_spec(state, now, sx, sy, screen_w, frame_delay).0;
            &&& plan_layer_spec(state, now, sx, sy, screen_w, frame_delay).1 is Some
            &&& next.scroll == scroll_step(state.scroll, scroll_w, now)
            &&& resting ==> next.scroll == state.scroll
            &&& !resting && state.scroll.x - 1 > -scroll_w ==> next.scroll.x == state.scroll.x - 1
                && next.scroll.pause_until == state.scroll.pause_until
            &&& !resting && state.scroll.x - 1 <= -scroll_w ==> next.scroll.x == 0 && next.scroll.pause_until
                is Some && (now + SCROLL_REVOLUTION_PAUSE <= u64::MAX ==> next.scroll.pause_until->0 == now
                + SCROLL_REVOLUTION_PAUSE)
        }),
{
}

/// The path that the picture moves along is a loop of nine places: moving on
/// nine times from any place leads back to it.
pub proof fn lemma_shift_cycle(index: usize)
    requires
        index < OLED_SHIFT_COUNT,
    ensures
        next_shift(index) < OLED_SHIFT_COUNT,
        next_shift(index) == (if index == 8 {
            0
        } else {
            index + 1
        }),
        ({
            let a = next_shift(next_shift(next_shift(index)));
            let b = next_shift(next_shift(next_shift(a)));
            next_shift(next_shift(next_shift(b))) == index
        }),
{
    let i1 = next_shift(index);
    let i2 = next_shift(i1);
    let i3 = next_shift(i2);
    let i4 = next_shift(i3);
    let i5 = next_shift(i4);
    let i6 = next_shift(i5);
    let i7 = next_shift(i6);
    let i8 = next_shift(i7);
    lemma_next_shift(index);
    lemma_next_shift(i1);
    lemma_next_shift(i2);
    lemma_next_shift(i3);
    lemma_next_shift(i4);
    lemma_next_shift(i5);
    lemma_next_shift(i6);
    lemma_next_shift(i7);
    lemma_next_shift(i8);
}

/// The place after the last one is the first; every other place is followed
/// by the one with the next number.
proof fn lemma_next_shift(index: usize)
    requires
        index < OLED_SHIFT_COUNT,
    ensures
        next_shift(index) == (if index == 8 {
            0
        } else {
            index + 1
        }),
{
}

/// How far a scrolling layer has moved after `k` ticks in which it did not
/// rest, started from its first position.
pub open spec fn scrolled(scroll_w: int, now: u64, k: nat) -> ScrollState
    decreases k,
{
    if k == 0 {
        ScrollState { x: 0, pause_until: None }
    } else {
        scroll_step(
            ScrollState { x: scrolled(scroll_w, now, (k - 1) as nat).x, pause_until: None },
            scroll_w,
            now,
        )
    }
}

/// A scrolling layer comes back to its first position exactly every
/// `scroll_w` ticks of motion, and each time it does it starts a rest of 900
/// milliseconds.
pub proof fn lemma_scroll_revolution(scroll_w: int, now: u64, k: nat)
    requires
        1 <= scroll_w < isize::MAX,
        k >= 1,
    ensures
        scrolled(scroll_w, now, k).x == -(k as int % scroll_w),
        scrolled(scroll_w, now, k).x == 0 <==> k as int % scroll_w == 0,
        scrolled(scroll_w, now, k).pause_until == (if k as int % scroll_w == 0 {
            Some(later(now, SCROLL_REVOLUTION_PAUSE))
        } else {
            None
        }),
    decreases k,
{
    let before = k as int - 1;
    if k > 1 {
        lemma_scroll_revolution(scroll_w, now, (k - 1) as nat);
    }
    assert(scrolled(scroll_w, now, (k - 1) as nat).x == -(before % scroll_w)) by {
        if k == 1 {
            vstd::arithmetic::div_mod::lemma_small_mod(0, scroll_w as nat);
        }
    }
    vstd::arithmetic::div_mod::lemma_fundamental_div_mod(before, scroll_w);
    vstd::arithmetic::div_mod::lemma_fundamental_div_mod(k as int, scroll_w);
    let q = before / scroll_w;
    let r = before % scroll_w;
    if r + 1 == scroll_w {
        assert(k == (q + 1) * scroll_w + 0) by (nonlinear_arith)
            requires
                k - 1 == scroll_w * q + r,
                r + 1 == scroll_w,
        ;
        vstd::arithmetic::div_mod::lemma_fundamental_div_mod_converse(k as int, scroll_w, q + 1, 0);
    } else {
        assert(k == q * scroll_w + (r + 1)) by (nonlinear_arith)
            requires
                k - 1 == scroll_w * q + r,
        ;
        vstd::arithmetic::div_mod::lemma_fundamental_div_mod_converse(k as int, scroll_w, q, r + 1);
    }
}

/// The first frame of a single still picture.
///
/// Let a store hold nothing but a picture `bitmap` at the top left corner.
/// Drawn without burn-in shift, the frame is the empty screen with the
/// picture drawn on it.
pub proof fn lemma_single_image_frame(
    bitmap: Arc<Bitmap>,
    id: LayerId,
    added: u64,
    now: u64,
    width: usize,
    height: usize,
    frame_delay: u64,
)
    ensures
        composed(
            planned_ops(
                seq![
                    LayerEntry {
                        id,
                        state: DrawLayerState::fresh(DrawLayer::Image { bitmap, x: 0, y: 0 }, added),
                    },
                ],
                now,
                0,
                0,
                width,
                frame_delay,
            ),
            Raster::filled(width as nat, height as nat, false),
        ) == Raster::filled(width as nat, height as nat, false).blit(bitmap@, 0, 0, false),
{
    let entry = LayerEntry { id, state: DrawLayerState::fresh(DrawLayer::Image { bitmap, x: 0, y: 0 }, added) };
    let layers = seq![entry];
    let empty = Raster::filled(width as nat, height as nat, false);
    assert(layers.drop_last() =~= Seq::<LayerEntry>::empty());
    assert(layers.last() == entry);
    let ops = planned_ops(layers, now, 0, 0, width, frame_delay);
    let op = RenderOp::Blit { bitmap, x: 0, y: 0 };
    assert(planned_ops(layers.drop_last(), now, 0, 0, width, frame_delay) =~= Seq::<RenderOp>::empty());
    assert(ops =~= seq![op]);
    assert(ops.drop_last() =~= Seq::<RenderOp>::empty());
    assert(ops.last() == op);
    assert(composed(ops.drop_last(), empty) == empty);
}

} // verus!
