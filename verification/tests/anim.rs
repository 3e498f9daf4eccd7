use ggoled::anim::{advance_animation_state, normalize_anim_delay, MAX_ANIM_CATCHUP_STEPS};
use ggoled::bitmap::Bitmap;
use ggoled::layer::{AnimState, Frame};
use std::sync::Arc;

const MILLIS: u64 = 1_000_000;
const SECONDS: u64 = 1_000_000_000;

// An instant well after the start of the clock.
const NOW: u64 = 100 * SECONDS;

fn frame(delay: Option<u64>) -> Frame {
    Frame { bitmap: Arc::new(Bitmap::new(1, 1, true)), delay }
}

#[test]
fn advance_animation_clamps_zero_delay() {
    let now = NOW;
    let mut anim = AnimState { ticks: 0, next_update: now - 1 * MILLIS };
    let frames = vec![frame(Some(0))];
    let fallback = 33 * MILLIS;
    let render_idx = advance_animation_state(&mut anim, &frames, false, now, fallback);
    assert_eq!(render_idx, Some(0));
    assert_eq!(anim.ticks, 1);
    assert!(anim.next_update > now);
}

#[test]
fn advance_animation_catches_up_when_behind() {
    let now = NOW;
    let mut anim = AnimState { ticks: 0, next_update: now - 35 * MILLIS };
    let frames = vec![frame(Some(10 * MILLIS)), frame(Some(10 * MILLIS))];
    let render_idx = advance_animation_state(&mut anim, &frames, false, now, 33 * MILLIS);
    assert_eq!(render_idx, Some(0));
    assert!(anim.ticks >= 2);
    assert!(anim.ticks <= MAX_ANIM_CATCHUP_STEPS);
    assert!(anim.next_update > now);
}

#[test]
fn advance_animation_bounds_catchup_steps() {
    let now = NOW;
    let mut anim = AnimState { ticks: 0, next_update: now - 10 * SECONDS };
    let frames = vec![frame(Some(0))];
    let fallback = 16 * MILLIS;
    let _ = advance_animation_state(&mut anim, &frames, false, now, fallback);
    assert_eq!(anim.ticks, MAX_ANIM_CATCHUP_STEPS);
    assert!(anim.next_update >= now + fallback);
}

#[test]
fn catch_up_takes_exactly_the_steps_that_are_due() {
    let now = NOW;
    let mut anim = AnimState { ticks: 0, next_update: now - 35 * MILLIS };
    let frames = vec![frame(Some(10 * MILLIS)), frame(Some(10 * MILLIS))];
    let render_idx = advance_animation_state(&mut anim, &frames, false, now, 33 * MILLIS);
    assert_eq!(render_idx, Some(0));
    // due at -35, -25, -15 and -5 milliseconds: four steps, the next at +5
    assert_eq!(anim, AnimState { ticks: 4, next_update: now + 5 * MILLIS });
}

#[test]
fn capped_catch_up_puts_the_next_step_off() {
    let now = NOW;
    let mut anim = AnimState { ticks: 3, next_update: now - 10 * SECONDS };
    let frames = vec![frame(Some(MILLIS)), frame(None)];
    let render_idx = advance_animation_state(&mut anim, &frames, false, now, 16 * MILLIS);
    assert_eq!(render_idx, Some(1));
    assert_eq!(anim, AnimState { ticks: 11, next_update: now + 16 * MILLIS });
}

#[test]
fn animation_that_is_not_due_stays() {
    let mut anim = AnimState { ticks: 5, next_update: NOW + 1 };
    let frames = vec![frame(Some(MILLIS)), frame(None), frame(None)];
    assert_eq!(advance_animation_state(&mut anim, &frames, false, NOW, 16 * MILLIS), Some(2));
    assert_eq!(anim, AnimState { ticks: 5, next_update: NOW + 1 });
}

#[test]
fn animation_without_frames_shows_nothing() {
    let mut anim = AnimState { ticks: 7, next_update: 0 };
    assert_eq!(advance_animation_state(&mut anim, &[], false, NOW, MILLIS), None);
    assert_eq!(advance_animation_state(&mut anim, &[], true, NOW, MILLIS), None);
    assert_eq!(anim, AnimState { ticks: 7, next_update: 0 });
}

#[test]
fn follow_fps_shows_every_frame_in_turn() {
    let frames = vec![frame(None), frame(Some(5)), frame(Some(0)), frame(None)];
    let mut anim = AnimState { ticks: 0, next_update: NOW };
    let mut shown = Vec::new();
    for _ in 0..9 {
        shown.push(advance_animation_state(&mut anim, &frames, true, NOW, MILLIS).unwrap());
    }
    assert_eq!(shown, vec![0, 1, 2, 3, 0, 1, 2, 3, 0]);
    assert_eq!(anim, AnimState { ticks: 9, next_update: NOW });
}

#[test]
fn frame_counter_starts_over_after_the_largest_number() {
    let frames = vec![frame(None), frame(None), frame(None)];
    let mut anim = AnimState { ticks: usize::MAX, next_update: NOW };
    let shown = advance_animation_state(&mut anim, &frames, true, NOW, MILLIS);
    assert_eq!(shown, Some(usize::MAX % 3));
    assert_eq!(anim.ticks, 0);
}

#[test]
fn next_update_never_passes_the_last_instant() {
    let frames = vec![frame(Some(u64::MAX))];
    let mut anim = AnimState { ticks: 0, next_update: 5 };
    assert_eq!(advance_animation_state(&mut anim, &frames, false, 10, MILLIS), Some(0));
    assert_eq!(anim, AnimState { ticks: 1, next_update: u64::MAX });
}

#[test]
fn missing_and_zero_delays_fall_back() {
    assert_eq!(normalize_anim_delay(None, 33), 33);
    assert_eq!(normalize_anim_delay(Some(0), 33), 33);
    assert_eq!(normalize_anim_delay(Some(7), 33), 7);
    assert_eq!(normalize_anim_delay(Some(0), 0), 0);
}

#[test]
fn animation_on_time_takes_one_step() {
    let frames = vec![frame(Some(10 * MILLIS)), frame(None), frame(Some(0))];
    let mut anim = AnimState { ticks: 1, next_update: NOW };
    assert_eq!(advance_animation_state(&mut anim, &frames, false, NOW, 33 * MILLIS), Some(1));
    assert_eq!(anim, AnimState { ticks: 2, next_update: NOW + 33 * MILLIS });
}

#[test]
fn catch_up_passes_over_no_more_than_the_time_behind_allows() {
    // delays of at least 10 milliseconds; behind by 0 to 100 milliseconds
    let frames = vec![frame(Some(10 * MILLIS)), frame(Some(25 * MILLIS)), frame(None)];
    for behind in 0..=100u64 {
        let mut anim = AnimState { ticks: 0, next_update: NOW - behind * MILLIS };
        advance_animation_state(&mut anim, &frames, false, NOW, 33 * MILLIS);
        let skipped = anim.ticks as u64 - 1;
        assert!(anim.ticks <= MAX_ANIM_CATCHUP_STEPS);
        assert!(skipped <= behind.div_ceil(10));
        assert!(anim.next_update > NOW);
    }
}
