//! The layers that make up a frame, and the ordered store that holds them.

use crate::bitmap::Bitmap;
use std::sync::Arc;
use vstd::prelude::*;

verus! {

/// The gap in pixels between two copies of a scrolling bitmap.
pub const SCROLL_MARGIN: isize = 30;

/// One picture of an animation and how long it is shown. The delay counts
/// nanoseconds; a frame without one, or with a delay of zero, is shown for the
/// renderer's own frame delay.
#[derive(Clone)]
pub struct Frame {
    pub bitmap: Arc<Bitmap>,
    pub delay: Option<u64>,
}

/// The name of a layer in a store. Names are handed out in rising order,
/// starting at 1; 0 names no layer.
#[derive(Clone, Copy, Debug, PartialEq, Eq, PartialOrd, Ord, Hash, Structural)]
pub struct LayerId(pub usize);

impl LayerId {
    /// The name that names no layer.
    pub fn none() -> (r: LayerId)
        ensures
            r == LayerId(0),
    {
        LayerId(0)
    }
}

/// Something to draw in every frame.
pub enum DrawLayer {
    /// A still picture that moves with the burn-in shift.
    Image { bitmap: Arc<Bitmap>, x: isize, y: isize },
    /// A still picture that stays where it is.
    ImageNoShift { bitmap: Arc<Bitmap>, x: isize, y: isize },
    /// Pictures shown in turn, one per frame or by their delays.
    Animation { frames: Vec<Frame>, x: isize, y: isize, follow_fps: bool },
    /// A wide picture that runs from right to left, over and over, and moves
    /// with the burn-in shift.
    Scroll { bitmap: Arc<Bitmap>, y: isize },
    /// A wide picture that runs from right to left, over and over.
    ScrollNoShift { bitmap: Arc<Bitmap>, y: isize },
}

/// What happens to a line of text that is as wide as the screen or wider.
#[derive(Clone, Copy, Debug, PartialEq, Eq, Structural)]
pub enum TextOverflowMode {
    /// The line scrolls.
    Scroll,
    /// The line is centered and cut off at the screen's edges.
    Clip,
}

/// Whether the picture is moved about to spare the display.
#[derive(Clone, Copy, Debug, PartialEq, Eq, Structural)]
pub enum ShiftMode {
    /// The picture stays in place.
    Off,
    /// The picture moves by one pixel every 90 seconds.
    Simple,
}

/// Where an animation stands: how many frames it has stepped through, and
/// the instant, in nanoseconds, from which the next step is due.
#[derive(Clone, Copy, Debug, PartialEq, Eq, Structural)]
pub struct AnimState {
    pub ticks: usize,
    pub next_update: u64,
}

/// Where a scrolling layer stands: how far it has moved to the left, as a
/// number at or below zero, and until which instant it rests.
#[derive(Clone, Copy, Debug, PartialEq, Eq, Structural)]
pub struct ScrollState {
    pub x: isize,
    pub pause_until: Option<u64>,
}

/// A layer with the state that the renderer keeps for it.
pub struct DrawLayerState {
    pub layer: DrawLayer,
    pub anim: AnimState,
    pub scroll: ScrollState,
}

/// The width of one revolution of a scrolling bitmap: the bitmap and the gap.
pub open spec fn scroll_width(bitmap_w: int) -> int {
    bitmap_w + SCROLL_MARGIN
}

impl Frame {
    /// The frame's bitmap is well-formed.
    pub open spec fn wf(&self) -> bool {
        self.bitmap.wf()
    }
}

impl DrawLayer {
    /// The layer's bitmaps are well-formed, and the revolution of a scrolling
    /// bitmap is less than the largest `isize`.
    pub open spec fn wf(&self) -> bool {
        match *self {
            DrawLayer::Image { bitmap, x, y } => bitmap.wf(),
            DrawLayer::ImageNoShift { bitmap, x, y } => bitmap.wf(),
            DrawLayer::Animation { frames, x, y, follow_fps } => forall|i: int|
                0 <= i < frames.len() ==> (#[trigger] frames[i]).wf(),
            DrawLayer::Scroll { bitmap, y } => bitmap.wf() && scroll_width(bitmap.w as int) < isize::MAX,
            DrawLayer::ScrollNoShift { bitmap, y } => bitmap.wf() && scroll_width(bitmap.w as int)
                < isize::MAX,
        }
    }

    /// Whether the layer is well-formed; see [`DrawLayer::wf`].
    pub fn is_valid(&self) -> (r: bool)
        ensures
            r == self.wf(),
    {
        match self {
            DrawLayer::Image { bitmap, x, y } => bitmap.is_valid(),
            DrawLayer::ImageNoShift { bitmap, x, y } => bitmap.is_valid(),
            DrawLayer::Animation { frames, x, y, follow_fps } => frames_valid(frames),
            DrawLayer::Scroll { bitmap, y } => bitmap.is_valid() && can_scroll(bitmap.w),
            DrawLayer::ScrollNoShift { bitmap, y } => bitmap.is_valid() && can_scroll(bitmap.w),
        }
    }

    /// The bitmap of a scrolling layer.
    pub open spec fn scroll_bitmap(&self) -> Option<Arc<Bitmap>> {
        match *self {
            DrawLayer::Scroll { bitmap, y } => Some(bitmap),
            DrawLayer::ScrollNoShift { bitmap, y } => Some(bitmap),
            _ => None,
        }
    }
}

/// Whether every frame's bitmap is well-formed.
pub fn frames_valid(frames: &Vec<Frame>) -> (r: bool)
    ensures
        r == forall|i: int| 0 <= i < frames.len() ==> (#[trigger] frames[i]).wf(),
{
    let mut i: usize = 0;
    while i < frames.len()
        invariant
            i <= frames.len(),
            forall|k: int| 0 <= k < i ==> (#[trigger] frames[k]).wf(),
        decreases frames.len() - i,
    {
        if !frames[i].bitmap.is_valid() {
            assert(!frames[i as int].wf());
            return false;
        }
        i += 1;
    }
    true
}

/// Whether the revolution of a scrolling bitmap `bitmap_w` wide is less than
/// the largest `isize`.
pub fn can_scroll(bitmap_w: usize) -> (r: bool)
    ensures
        r == (scroll_width(bitmap_w as int) < isize::MAX),
{
    bitmap_w < (isize::MAX - SCROLL_MARGIN) as usize
}

impl DrawLayerState {
    /// The layer is well-formed, and a scrolling layer has moved less than
    /// one revolution to the left.
    pub open spec fn wf(&self) -> bool {
        &&& self.layer.wf()
        &&& match self.layer.scroll_bitmap() {
            Some(bitmap) => -scroll_width(bitmap.w as int) < self.scroll.x <= 0,
            None => true,
        }
    }

    /// Whether the state is well-formed; see [`DrawLayerState::wf`].
    pub fn is_valid(&self) -> (r: bool)
        ensures
            r == self.wf(),
    {
        if !self.layer.is_valid() {
            return false;
        }
        match &self.layer {
            DrawLayer::Scroll { bitmap, y } => -(bitmap.w as isize + SCROLL_MARGIN) < self.scroll.x
                && self.scroll.x <= 0,
            DrawLayer::ScrollNoShift { bitmap, y } => -(bitmap.w as isize + SCROLL_MARGIN) < self.scroll.x
                && self.scroll.x <= 0,
            _ => true,
        }
    }

    /// The state in which a layer enters a store at the instant `now`: no
    /// frame stepped through, the next step due at once, not scrolled, not
    /// resting.
    pub open spec fn fresh(layer: DrawLayer, now: u64) -> DrawLayerState {
        DrawLayerState {
            layer,
            anim: AnimState { ticks: 0, next_update: now },
            scroll: ScrollState { x: 0, pause_until: None },
        }
    }
}

/// A layer in a store, under its name.
pub struct LayerEntry {
    pub id: LayerId,
    pub state: DrawLayerState,
}

/// The layers of a display, lowest first, and the number of names handed out.
///
/// A frame is drawn from the first layer to the last, so a later layer lies
/// above an earlier one. A layer's name is never given to another layer.
pub struct LayerStore {
    pub layers: Vec<LayerEntry>,
    pub layer_counter: usize,
}

/// The layers without the one named `id`, in their order.
pub open spec fn without(layers: Seq<LayerEntry>, id: LayerId) -> Seq<LayerEntry>
    decreases layers.len(),
{
    if layers.len() == 0 {
        layers
    } else if layers.last().id == id {
        without(layers.drop_last(), id)
    } else {
        without(layers.drop_last(), id).push(layers.last())
    }
}

/// The layers without those named in `ids`, in their order.
pub open spec fn without_all(layers: Seq<LayerEntry>, ids: Seq<LayerId>) -> Seq<LayerEntry>
    decreases ids.len(),
{
    if ids.len() == 0 {
        layers
    } else {
        without(without_all(layers, ids.drop_last()), ids.last())
    }
}

/// The names rise from each layer to the next, none is 0, none is above
/// `counter`, and every layer is well-formed.
pub open spec fn layers_wf(layers: Seq<LayerEntry>, counter: usize) -> bool {
    &&& forall|i: int, j: int| 0 <= i < j < layers.len() ==> (#[trigger] layers[i]).id.0 < (#[trigger] layers[j]).id.0
    &&& forall|i: int| 0 <= i < layers.len() ==> 1 <= (#[trigger] layers[i]).id.0 <= counter && layers[i].state.wf()
}

/// Taking out a name that no layer has changes nothing.
pub proof fn lemma_without_absent(layers: Seq<LayerEntry>, id: LayerId)
    requires
        forall|i: int| 0 <= i < layers.len() ==> (#[trigger] layers[i]).id != id,
    ensures
        without(layers, id) == layers,
    decreases layers.len(),
{
    if layers.len() > 0 {
        let front = layers.drop_last();
        assert forall|i: int| 0 <= i < front.len() implies (#[trigger] front[i]).id != id by {
            assert(front[i] == layers[i]);
        }
        lemma_without_absent(front, id);
        assert(front.push(layers.last()) =~= layers);
    }
}

/// Where only the layer at position `at` has the name `id`, taking the name
/// out takes that layer out and leaves the others in their order.
pub proof fn lemma_without_present(layers: Seq<LayerEntry>, id: LayerId, at: int)
    requires
        0 <= at < layers.len(),
        forall|i: int| 0 <= i < layers.len() ==> ((#[trigger] layers[i]).id == id <==> i == at),
    ensures
        without(layers, id) == layers.remove(at),
    decreases layers.len(),
{
    let front = layers.drop_last();
    if at == layers.len() - 1 {
        assert forall|i: int| 0 <= i < front.len() implies (#[trigger] front[i]).id != id by {
            assert(front[i] == layers[i]);
        }
        lemma_without_absent(front, id);
        assert(front =~= layers.remove(at));
    } else {
        assert forall|i: int| 0 <= i < front.len() implies ((#[trigger] front[i]).id == id <==> i == at) by {
            assert(front[i] == layers[i]);
        }
        lemma_without_present(front, id, at);
        assert(front.remove(at).push(layers.last()) =~= layers.remove(at));
    }
}

impl LayerStore {
    /// The store's layers are in order and well-formed; see [`layers_wf`].
    pub open spec fn wf(&self) -> bool {
        layers_wf(self.layers@, self.layer_counter)
    }

    /// Whether the store's layers are in order and well-formed; see
    /// [`layers_wf`].
    pub fn is_valid(&self) -> (r: bool)
        ensures
            r == self.wf(),
    {
        let mut i: usize = 0;
        while i < self.layers.len()
            invariant
                i <= self.layers.len(),
                layers_wf(self.layers@.take(i as int), self.layer_counter),
            decreases self.layers.len() - i,
        {
            let entry = &self.layers[i];
            let rising = i == 0 || self.layers[i - 1].id.0 < entry.id.0;
            if !(rising && 1 <= entry.id.0 && entry.id.0 <= self.layer_counter && entry.state.is_valid()) {
                proof {
                    if self.wf() {
                        if i > 0 {
                            assert(self.layers@[i - 1].id.0 < self.layers@[i as int].id.0);
                        }
                        assert(self.layers@[i as int].state.wf());
                    }
                }
                return false;
            }
            proof {
                let before = self.layers@.take(i as int);
                let after = self.layers@.take(i + 1);
                assert forall|a: int, b: int| 0 <= a < b < after.len() implies (#[trigger] after[a]).id.0 < (
                #[trigger] after[b]).id.0 by {
                    if b < i {
                        assert(before[a] == after[a] && before[b] == after[b]);
                    } else if a < i - 1 {
                        assert(before[a] == after[a] && before[i - 1] == after[i - 1]);
                    }
                }
                assert forall|a: int| 0 <= a < after.len() implies 1 <= (#[trigger] after[a]).id.0
                    <= self.layer_counter && after[a].state.wf() by {
                    if a < i {
                        assert(before[a] == after[a]);
                    }
                }
            }
            i += 1;
        }
        proof {
            assert(self.layers@.take(self.layers.len() as int) =~= self.layers@);
        }
        true
    }

    /// A store without layers that has handed out no name yet.
    pub fn new() -> (r: LayerStore)
        ensures
            r.wf(),
            r.layers@.len() == 0,
            r.layer_counter == 0,
    {
        LayerStore { layers: Vec::new(), layer_counter: 0 }
    }

    /// The number of layers in the store.
    pub fn len(&self) -> (r: usize)
        ensures
            r == self.layers@.len(),
    {
        self.layers.len()
    }

    /// Puts `layer` on top of the others and returns its name, the next
    /// unused one. The layer starts at the instant `now` in the state that
    /// [`DrawLayerState::fresh`] describes.
    pub fn add_layer(&mut self, layer: DrawLayer, now: u64) -> (id: LayerId)
        requires
            old(self).wf(),
            layer.wf(),
            old(self).layer_counter < usize::MAX,
        ensures
            final(self).wf(),
            id == LayerId((old(self).layer_counter + 1) as usize),
            final(self).layer_counter == old(self).layer_counter + 1,
            final(self).layers@ == old(self).layers@.push(
                LayerEntry { id, state: DrawLayerState::fresh(layer, now) },
            ),
    {
        self.layer_counter += 1;
        let id = LayerId(self.layer_counter);
        self.layers.push(
            LayerEntry {
                id,
                state: DrawLayerState {
                    layer,
                    anim: AnimState { ticks: 0, next_update: now },
                    scroll: ScrollState { x: 0, pause_until: None },
                },
            },
        );
        id
    }

    /// Takes the layer named `id` out of the store, if there is one. The
    /// other layers keep their names and their order.
    pub fn remove_layer(&mut self, id: LayerId)
        requires
            old(self).wf(),
        ensures
            final(self).wf(),
            final(self).layer_counter == old(self).layer_counter,
            final(self).layers@ == without(old(self).layers@, id),
    {
        let mut i: usize = 0;
        while i < self.layers.len()
            invariant
                *self == *old(self),
                self.wf(),
                i <= self.layers.len(),
                forall|k: int| 0 <= k < i ==> (#[trigger] self.layers[k]).id != id,
            decreases self.layers.len() - i,
        {
            if self.layers[i].id.0 == id.0 {
                proof {
                    lemma_without_present(self.layers@, id, i as int);
                }
                let _ = self.layers.remove(i);
                return ;
            }
            i += 1;
        }
        proof {
            lemma_without_absent(self.layers@, id);
        }
    }

    /// Takes the layers named in `ids` out of the store.
    pub fn remove_layers(&mut self, ids: &[LayerId])
        requires
            old(self).wf(),
        ensures
            final(self).wf(),
            final(self).layer_counter == old(self).layer_counter,
            final(self).layers@ == without_all(old(self).layers@, ids@),
    {
        let mut k: usize = 0;
        while k < ids.len()
            invariant
                self.wf(),
                k <= ids.len(),
                self.layer_counter == old(self).layer_counter,
                self.layers@ == without_all(old(self).layers@, ids@.take(k as int)),
            decreases ids.len() - k,
        {
            proof {
                assert(ids@.take(k + 1).drop_last() =~= ids@.take(k as int));
            }
            self.remove_layer(ids[k]);
            k += 1;
        }
        proof {
            assert(ids@.take(ids.len() as int) =~= ids@);
        }
    }

    /// Takes every layer out of the store. Names that were handed out stay
    /// used.
    pub fn clear_layers(&mut self)
        ensures
            final(self).wf(),
            final(self).layer_counter == old(self).layer_counter,
            final(self).layers@.len() == 0,
    {
        self.layers.clear();
    }
}

} // verus!
