use ggoled::bitmap::Bitmap;
use ggoled::layer::{
    can_scroll, frames_valid, AnimState, DrawLayer, Frame, LayerId, LayerStore, ScrollState,
    TextOverflowMode,
};
use ggoled::text_layout::{add_text_layers, center_bitmap};
use std::sync::Arc;

fn image(w: usize, h: usize) -> DrawLayer {
    DrawLayer::Image { bitmap: Arc::new(Bitmap::new(w, h, true)), x: 0, y: 0 }
}

fn ids(store: &LayerStore) -> Vec<LayerId> {
    store.layers.iter().map(|entry| entry.id).collect()
}

#[test]
fn none_is_the_name_zero() {
    assert_eq!(LayerId::none(), LayerId(0));
}

#[test]
fn names_rise_from_one() {
    let mut store = LayerStore::new();
    assert_eq!(store.len(), 0);
    assert_eq!(store.add_layer(image(1, 1), 0), LayerId(1));
    assert_eq!(store.add_layer(image(2, 1), 0), LayerId(2));
    assert_eq!(store.add_layer(image(3, 1), 0), LayerId(3));
    assert_eq!(ids(&store), vec![LayerId(1), LayerId(2), LayerId(3)]);
    assert_eq!(store.layer_counter, 3);
    assert_eq!(store.len(), 3);
    assert_ne!(store.layers[0].id, LayerId::none());
}

#[test]
fn new_layer_starts_fresh() {
    let mut store = LayerStore::new();
    store.add_layer(image(1, 1), 1234);
    let state = &store.layers[0].state;
    assert_eq!(state.anim, AnimState { ticks: 0, next_update: 1234 });
    assert_eq!(state.scroll, ScrollState { x: 0, pause_until: None });
}

#[test]
fn removed_names_are_not_used_again() {
    let mut store = LayerStore::new();
    let a = store.add_layer(image(1, 1), 0);
    let b = store.add_layer(image(2, 1), 0);
    let c = store.add_layer(image(3, 1), 0);
    store.remove_layer(b);
    assert_eq!(ids(&store), vec![a, c]);
    store.remove_layer(b);
    store.remove_layer(LayerId::none());
    store.remove_layer(LayerId(99));
    assert_eq!(ids(&store), vec![a, c]);
    let d = store.add_layer(image(4, 1), 0);
    assert_eq!(d, LayerId(4));
    assert_eq!(ids(&store), vec![a, c, d]);
    store.clear_layers();
    assert_eq!(store.len(), 0);
    assert_eq!(store.add_layer(image(5, 1), 0), LayerId(5));
}

#[test]
fn many_layers_leave_at_once() {
    let mut store = LayerStore::new();
    let all: Vec<LayerId> = (1..=6).map(|w| store.add_layer(image(w, 1), 0)).collect();
    store.remove_layers(&[all[4], all[0], LayerId(77), all[4], all[2]]);
    assert_eq!(ids(&store), vec![all[1], all[3], all[5]]);
    store.remove_layers(&[]);
    assert_eq!(ids(&store), vec![all[1], all[3], all[5]]);
    let widths: Vec<usize> = store
        .layers
        .iter()
        .map(|entry| match &entry.state.layer {
            DrawLayer::Image { bitmap, .. } => bitmap.w,
            _ => 0,
        })
        .collect();
    assert_eq!(widths, vec![2, 4, 6]);
}

#[test]
fn bitmap_is_centered() {
    assert_eq!(center_bitmap(128, 64, &Bitmap::new(20, 16, false)), (54, 24));
    assert_eq!(center_bitmap(128, 64, &Bitmap::new(128, 64, false)), (0, 0));
    assert_eq!(center_bitmap(128, 64, &Bitmap::new(21, 15, false)), (53, 24));
    // what is too large hangs over by half, rounded towards zero
    assert_eq!(center_bitmap(128, 64, &Bitmap::new(131, 67, false)), (-1, -1));
    assert_eq!(center_bitmap(128, 64, &Bitmap::new(132, 70, false)), (-2, -3));
}

#[test]
fn two_lines_of_text_are_centered() {
    let mut store = LayerStore::new();
    let lines = vec![Arc::new(Bitmap::new(20, 16, true)), Arc::new(Bitmap::new(20, 16, true))];
    let names = add_text_layers(128, 64, &mut store, lines, 16, None, None, true, TextOverflowMode::Scroll, 0);
    assert_eq!(names, vec![LayerId(1), LayerId(2)]);
    assert_eq!(store.len(), 2);
    let places: Vec<(isize, isize)> = store
        .layers
        .iter()
        .map(|entry| match &entry.state.layer {
            DrawLayer::Image { bitmap, x, y } => {
                assert_eq!(bitmap.w, 20);
                (*x, *y)
            }
            _ => panic!("expected a still picture"),
        })
        .collect();
    assert_eq!(places, vec![(54, 16), (54, 32)]);
}

#[test]
fn wide_line_scrolls_or_is_clipped() {
    let wide = || vec![Arc::new(Bitmap::new(200, 16, true)), Arc::new(Bitmap::new(128, 16, true))];
    let mut store = LayerStore::new();
    add_text_layers(128, 64, &mut store, wide(), 16, None, Some(8), true, TextOverflowMode::Scroll, 0);
    assert!(matches!(store.layers[0].state.layer, DrawLayer::Scroll { y: 8, .. }));
    assert!(matches!(store.layers[1].state.layer, DrawLayer::Scroll { y: 24, .. }));
    add_text_layers(128, 64, &mut store, wide(), 16, None, Some(8), false, TextOverflowMode::Scroll, 0);
    assert!(matches!(store.layers[2].state.layer, DrawLayer::ScrollNoShift { y: 8, .. }));
    add_text_layers(128, 64, &mut store, wide(), 16, None, Some(8), true, TextOverflowMode::Clip, 0);
    assert!(matches!(store.layers[4].state.layer, DrawLayer::Image { x: -36, y: 8, .. }));
    assert!(matches!(store.layers[5].state.layer, DrawLayer::Image { x: 0, y: 24, .. }));
    add_text_layers(128, 64, &mut store, wide(), 16, Some(3), None, false, TextOverflowMode::Clip, 0);
    assert!(matches!(store.layers[6].state.layer, DrawLayer::ImageNoShift { x: 3, y: 16, .. }));
    assert!(matches!(store.layers[7].state.layer, DrawLayer::ImageNoShift { x: 3, y: 32, .. }));
    assert_eq!(store.layer_counter, 8);
}

#[test]
fn tall_text_starts_above_the_screen() {
    let mut store = LayerStore::new();
    let lines: Vec<_> = (0..5).map(|_| Arc::new(Bitmap::new(10, 16, true))).collect();
    add_text_layers(128, 64, &mut store, lines, 16, None, None, true, TextOverflowMode::Scroll, 0);
    let tops: Vec<isize> = store
        .layers
        .iter()
        .map(|entry| match &entry.state.layer {
            DrawLayer::Image { y, .. } => *y,
            _ => panic!("expected a still picture"),
        })
        .collect();
    assert_eq!(tops, vec![-8, 8, 24, 40, 56]);
    let mut other = LayerStore::new();
    let odd: Vec<_> = (0..1).map(|_| Arc::new(Bitmap::new(10, 67, true))).collect();
    add_text_layers(128, 64, &mut other, odd, 67, None, None, true, TextOverflowMode::Scroll, 0);
    assert!(matches!(other.layers[0].state.layer, DrawLayer::Image { y: -1, .. }));
}

#[test]
fn no_lines_add_no_layers() {
    let mut store = LayerStore::new();
    let names = add_text_layers(128, 64, &mut store, Vec::new(), 16, None, None, true, TextOverflowMode::Scroll, 0);
    assert!(names.is_empty());
    assert_eq!((store.len(), store.layer_counter), (0, 0));
}

#[test]
fn layers_are_checked_before_they_are_added() {
    let good = || Arc::new(Bitmap::new(2, 2, true));
    let bad = || {
        let mut bitmap = Bitmap::new(2, 2, true);
        bitmap.w = 3;
        Arc::new(bitmap)
    };
    assert!(DrawLayer::Image { bitmap: good(), x: 0, y: -5 }.is_valid());
    assert!(!DrawLayer::Image { bitmap: bad(), x: 0, y: 0 }.is_valid());
    assert!(DrawLayer::Image { bitmap: good(), x: isize::MAX, y: isize::MIN }.is_valid());
    assert!(DrawLayer::ImageNoShift { bitmap: good(), x: isize::MAX, y: isize::MIN }.is_valid());
    assert!(!DrawLayer::ImageNoShift { bitmap: bad(), x: 0, y: 0 }.is_valid());
    assert!(DrawLayer::Scroll { bitmap: good(), y: 0 }.is_valid());
    assert!(DrawLayer::Scroll { bitmap: good(), y: isize::MAX }.is_valid());
    assert!(!DrawLayer::Scroll { bitmap: bad(), y: 0 }.is_valid());
    assert!(DrawLayer::ScrollNoShift { bitmap: good(), y: isize::MAX }.is_valid());
    assert!(!DrawLayer::ScrollNoShift { bitmap: bad(), y: 0 }.is_valid());
    let frames = |last: Arc<Bitmap>| vec![Frame { bitmap: good(), delay: None }, Frame { bitmap: last, delay: Some(1) }];
    assert!(DrawLayer::Animation { frames: frames(good()), x: 1, y: 1, follow_fps: true }.is_valid());
    assert!(!DrawLayer::Animation { frames: frames(bad()), x: 1, y: 1, follow_fps: true }.is_valid());
    assert!(DrawLayer::Animation { frames: frames(good()), x: isize::MIN, y: 1, follow_fps: false }.is_valid());
    assert!(DrawLayer::Animation { frames: Vec::new(), x: 0, y: 0, follow_fps: false }.is_valid());
    assert!(frames_valid(&frames(good())));
    assert!(!frames_valid(&frames(bad())));
    assert!(can_scroll(200));
    assert!(can_scroll(isize::MAX as usize - 31));
    assert!(!can_scroll(isize::MAX as usize - 30));
    assert!(!can_scroll(usize::MAX));
}

#[test]
fn store_is_checked() {
    let mut store = LayerStore::new();
    assert!(store.is_valid());
    store.add_layer(image(1, 1), 0);
    store.add_layer(DrawLayer::Scroll { bitmap: Arc::new(Bitmap::new(10, 1, true)), y: 0 }, 0);
    store.add_layer(image(3, 1), 0);
    assert!(store.is_valid());
    assert!(store.layers.iter().all(|entry| entry.state.is_valid()));
    // a scrolling layer has moved less than one revolution
    store.layers[1].state.scroll.x = -39;
    assert!(store.is_valid());
    store.layers[1].state.scroll.x = -40;
    assert!(!store.layers[1].state.is_valid());
    assert!(!store.is_valid());
    store.layers[1].state.scroll.x = 1;
    assert!(!store.is_valid());
    store.layers[1].state.scroll.x = 0;
    // names rise, are not 0 and were handed out
    store.layers[2].id = LayerId(2);
    assert!(!store.is_valid());
    store.layers[2].id = LayerId(4);
    assert!(!store.is_valid());
    store.layer_counter = 4;
    assert!(store.is_valid());
    store.layers[0].id = LayerId(0);
    assert!(!store.is_valid());
    store.layers[0].id = LayerId(1);
    if let DrawLayer::Image { bitmap, .. } = &mut store.layers[0].state.layer {
        let mut broken = Bitmap::new(1, 1, true);
        broken.w = 2;
        *bitmap = Arc::new(broken);
    }
    assert!(!store.is_valid());
}
