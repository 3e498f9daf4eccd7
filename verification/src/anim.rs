//! How an animation steps through its frames.

use crate::layer::{AnimState, Frame};
use vstd::prelude::*;

verus! {

/// The most frames that an animation steps through in one tick to catch up
/// with the clock.
pub const MAX_ANIM_CATCHUP_STEPS: usize = 8;

/// The delay that a frame is shown for: its own, or `fallback` where it has
/// none or a delay of zero.
pub open spec fn normalized_delay(delay: Option<u64>, fallback: u64) -> u64 {
    match delay {
        Some(d) => if d == 0 {
            fallback
        } else {
            d
        },
        None => fallback,
    }
}

/// An instant moved on by a delay; the last instant that can be told is
/// never passed.
pub open spec fn later(instant: u64, delay: u64) -> u64 {
    if instant + delay > u64::MAX {
        u64::MAX
    } else {
        (instant + delay) as u64
    }
}

/// The frame counter after one more frame; it starts over after the largest
/// number.
pub open spec fn next_tick(ticks: usize) -> usize {
    if ticks == usize::MAX {
        0
    } else {
        (ticks + 1) as usize
    }
}

/// The animation after one step: the counter moves on, and the next step is
/// due later by the delay of the frame that was left.
pub open spec fn step(anim: AnimState, frames: Seq<Frame>, fallback: u64) -> AnimState {
    AnimState {
        ticks: next_tick(anim.ticks),
        next_update: later(
            anim.next_update,
            normalized_delay(frames[anim.ticks as int % frames.len() as int].delay, fallback),
        ),
    }
}

/// The number of steps that an animation takes to catch up with the instant
/// `now`, with at most `budget` steps allowed: it steps as long as its next
/// step is due.
pub open spec fn catch_up_steps(anim: AnimState, frames: Seq<Frame>, now: u64, fallback: u64, budget: nat) -> nat
    decreases budget,
{
    if budget == 0 || now < anim.next_update {
        0
    } else {
        1 + catch_up_steps(step(anim, frames, fallback), frames, now, fallback, (budget - 1) as nat)
    }
}

/// The animation after it caught up with the instant `now`, with at most
/// `budget` steps allowed.
pub open spec fn catch_up(anim: AnimState, frames: Seq<Frame>, now: u64, fallback: u64, budget: nat) -> AnimState
    decreases budget,
{
    if budget == 0 || now < anim.next_update {
        anim
    } else {
        catch_up(step(anim, frames, fallback), frames, now, fallback, (budget - 1) as nat)
    }
}

/// The animation after one tick at the instant `now`, and the frame to show.
///
/// Without frames nothing changes and nothing is shown. The frame to show is
/// the one that the counter stood at. An animation that follows the frame
/// rate then moves on by one frame. One that follows the clock catches up in
/// at most eight steps; if its next step is still due after that, the step is
/// put off to one frame delay after `now`.
pub open spec fn advance_spec(anim: AnimState, frames: Seq<Frame>, follow_fps: bool, now: u64, fallback: u64) -> (
    AnimState,
    Option<usize>,
) {
    if frames.len() == 0 {
        (anim, None)
    } else {
        let shown = Some((anim.ticks as int % frames.len() as int) as usize);
        if follow_fps {
            (AnimState { ticks: next_tick(anim.ticks), next_update: anim.next_update }, shown)
        } else {
            let caught = catch_up(anim, frames, now, fallback, MAX_ANIM_CATCHUP_STEPS as nat);
            if now >= caught.next_update {
                (AnimState { ticks: caught.ticks, next_update: later(now, fallback) }, shown)
            } else {
                (caught, shown)
            }
        }
    }
}

/// The delay that a frame is shown for: its own, or `fallback_delay` where it
/// has none or a delay of zero.
pub fn normalize_anim_delay(delay: Option<u64>, fallback_delay: u64) -> (r: u64)
    ensures
        r == normalized_delay(delay, fallback_delay),
{
    match delay {
        Some(d) => if d == 0 {
            fallback_delay
        } else {
            d
        },
        None => fallback_delay,
    }
}

/// Moves an animation on by one tick at the instant `now` and says which
/// frame to show, if any.
pub fn advance_animation_state(
    anim: &mut AnimState,
    frames: &[Frame],
    follow_fps: bool,
    now: u64,
    fallback_delay: u64,
) -> (r: Option<usize>)
    ensures
        (*final(anim), r) == advance_spec(*old(anim), frames@, follow_fps, now, fallback_delay),
        r is Some <==> frames.len() > 0,
        r is Some ==> r->0 < frames.len(),
{
    if frames.len() == 0 {
        return None;
    }
    let render_idx = anim.ticks % frames.len();
    if follow_fps {
        anim.ticks = anim.ticks.wrapping_add(1);
        return Some(render_idx);
    }
    if now >= anim.next_update {
        let ghost start = *anim;
        let mut steps: usize = 0;
        while now >= anim.next_update && steps < MAX_ANIM_CATCHUP_STEPS
            invariant
                frames.len() > 0,
                steps <= MAX_ANIM_CATCHUP_STEPS,
                catch_up(start, frames@, now, fallback_delay, MAX_ANIM_CATCHUP_STEPS as nat) == catch_up(
                    *anim,
                    frames@,
                    now,
                    fallback_delay,
                    (MAX_ANIM_CATCHUP_STEPS - steps) as nat,
                ),
            decreases MAX_ANIM_CATCHUP_STEPS - steps,
        {
            let idx = anim.ticks % frames.len();
            let delay = normalize_anim_delay(frames[idx].delay, fallback_delay);
            anim.ticks = anim.ticks.wrapping_add(1);
            anim.next_update = anim.next_update.saturating_add(delay);
            steps += 1;
        }
        if now >= anim.next_update {
            anim.next_update = now.saturating_add(fallback_delay);
        }
    }
    Some(render_idx)
}

/// Catching up with the clock is bounded.
///
/// In one tick an animation takes no more steps than its budget allows, which
/// is eight. Let each frame be shown for at least `min_delay`, and let the
/// animation be behind the instant `now` by `now - next_update`. Then every
/// step after the first has used up `min_delay` of that time, so the
/// number of frames passed over is at most the time behind divided by
/// `min_delay`. The frame counter moves on by the number of steps.
pub proof fn lemma_catch_up_bounded(
    anim: AnimState,
    frames: Seq<Frame>,
    now: u64,
    fallback: u64,
    budget: nat,
    min_delay: u64,
)
    requires
        frames.len() > 0,
        now < u64::MAX,
        forall|i: int| 0 <= i < frames.len() ==> normalized_delay(#[trigger] frames[i].delay, fallback) >= min_delay,
    ensures
        catch_up_steps(anim, frames, now, fallback, budget) <= budget,
        catch_up_steps(anim, frames, now, fallback, budget) >= 1 ==> anim.next_update <= now && (catch_up_steps(
            anim,
            frames,
            now,
            fallback,
            budget,
        ) - 1) * min_delay <= now - anim.next_update,
        catch_up(anim, frames, now, fallback, budget).ticks == (anim.ticks + catch_up_steps(
            anim,
            frames,
            now,
            fallback,
            budget,
        )) % (usize::MAX + 1),
    decreases budget,
{
    if budget == 0 || now < anim.next_update {
        vstd::arithmetic::div_mod::lemma_small_mod(anim.ticks as nat, (usize::MAX + 1) as nat);
    } else {
        let next = step(anim, frames, fallback);
        let rest = catch_up_steps(next, frames, now, fallback, (budget - 1) as nat);
        lemma_catch_up_bounded(next, frames, now, fallback, (budget - 1) as nat, min_delay);
        let i = anim.ticks as int % frames.len() as int;
        assert(0 <= i < frames.len());
        let d = normalized_delay(frames[i].delay, fallback);
        assert(d >= min_delay);
        if rest >= 1 {
            assert(next.next_update == anim.next_update + d);
            assert(rest * min_delay == (rest - 1) * min_delay + min_delay) by (nonlinear_arith);
        } else {
            assert((1 - 1) * min_delay == 0);
        }
        if anim.ticks == usize::MAX {
            vstd::arithmetic::div_mod::lemma_mod_add_multiples_vanish(rest as int, usize::MAX + 1);
        }
    }
}

/// The number of frames that catching up passes over is at most the time
/// behind divided by the shortest delay, rounded up.
pub proof fn lemma_catch_up_skips(
    anim: AnimState,
    frames: Seq<Frame>,
    now: u64,
    fallback: u64,
    budget: nat,
    min_delay: u64,
)
    requires
        frames.len() > 0,
        now < u64::MAX,
        min_delay > 0,
        forall|i: int| 0 <= i < frames.len() ==> normalized_delay(#[trigger] frames[i].delay, fallback) >= min_delay,
        catch_up_steps(anim, frames, now, fallback, budget) >= 1,
    ensures
        catch_up_steps(anim, frames, now, fallback, budget) - 1 <= (now - anim.next_update + min_delay - 1) / (
        min_delay as int),
{
    lemma_catch_up_bounded(anim, frames, now, fallback, budget, min_delay);
    let skipped = catch_up_steps(anim, frames, now, fallback, budget) - 1;
    let behind = now - anim.next_update;
    let d = min_delay as int;
    vstd::arithmetic::div_mod::lemma_fundamental_div_mod(behind + d - 1, d);
    assert(skipped <= (behind + d - 1) / d) by (nonlinear_arith)
        requires
            skipped * d <= behind,
            d > 0,
            behind + d - 1 == d * ((behind + d - 1) / d) + (behind + d - 1) % d,
            0 <= (behind + d - 1) % d < d,
    ;
}

/// One tick of an animation that follows the clock.
///
/// Let the frame delay be more than zero, let one frame delay after `now`
/// still be an instant that the clock can tell, and let the frame counter
/// have room for eight more frames. Then the tick moves the counter on by the
/// number of steps it takes, which is at most eight, and is none exactly when
/// the next step is not due yet. After the tick the next step is due later
/// than `now`. Where eight steps did not catch up, it is due one frame delay
/// after `now`.
pub proof fn lemma_wall_clock_tick(anim: AnimState, frames: Seq<Frame>, now: u64, fallback: u64)
    requires
        frames.len() > 0,
        fallback > 0,
        now + fallback <= u64::MAX,
        anim.ticks + MAX_ANIM_CATCHUP_STEPS <= usize::MAX,
    ensures
        ({
            let after = advance_spec(anim, frames, false, now, fallback).0;
            let steps = catch_up_steps(anim, frames, now, fallback, MAX_ANIM_CATCHUP_STEPS as nat);
            let caught = catch_up(anim, frames, now, fallback, MAX_ANIM_CATCHUP_STEPS as nat);
            &&& after.ticks == anim.ticks + steps
            &&& steps <= MAX_ANIM_CATCHUP_STEPS
            &&& (steps == 0 <==> now < anim.next_update)
            &&& after.next_update > now
            &&& (caught.next_update <= now ==> after.next_update == now + fallback)
        }),
{
    lemma_catch_up_bounded(anim, frames, now, fallback, MAX_ANIM_CATCHUP_STEPS as nat, 0);
    let steps = catch_up_steps(anim, frames, now, fallback, MAX_ANIM_CATCHUP_STEPS as nat);
    vstd::arithmetic::div_mod::lemma_small_mod((anim.ticks + steps) as nat, (usize::MAX + 1) as nat);
}

/// How many frames a tick of an animation that follows the clock passes
/// over: one less than the frames it moves on, and at most the time that the
/// animation is behind divided by the shortest delay, rounded up.
pub proof fn lemma_wall_clock_skips(
    anim: AnimState,
    frames: Seq<Frame>,
    now: u64,
    fallback: u64,
    min_delay: u64,
)
    requires
        frames.len() > 0,
        fallback > 0,
        min_delay > 0,
        now + fallback <= u64::MAX,
        anim.ticks + MAX_ANIM_CATCHUP_STEPS <= usize::MAX,
        now >= anim.next_update,
        forall|i: int| 0 <= i < frames.len() ==> normalized_delay(#[trigger] frames[i].delay, fallback) >= min_delay,
    ensures
        ({
            let after = advance_spec(anim, frames, false, now, fallback).0;
            &&& after.ticks - anim.ticks >= 1
            &&& after.ticks - anim.ticks - 1 <= (now - anim.next_update + min_delay - 1) / (min_delay as int)
            &&& now == anim.next_update ==> after.ticks == anim.ticks + 1
        }),
{
    lemma_wall_clock_tick(anim, frames, now, fallback);
    lemma_catch_up_skips(anim, frames, now, fallback, MAX_ANIM_CATCHUP_STEPS as nat, min_delay);
    if now == anim.next_update {
        lemma_on_time_takes_one_step(anim, frames, now, fallback);
    }
}

/// An animation that follows the clock and is exactly on time takes one
/// step and passes over no frame.
pub proof fn lemma_on_time_takes_one_step(anim: AnimState, frames: Seq<Frame>, now: u64, fallback: u64)
    requires
        frames.len() > 0,
        fallback > 0,
        now < u64::MAX,
        now == anim.next_update,
    ensures
        catch_up_steps(anim, frames, now, fallback, MAX_ANIM_CATCHUP_STEPS as nat) == 1,
{
    let next = step(anim, frames, fallback);
    let i = anim.ticks as int % frames.len() as int;
    assert(0 <= i < frames.len());
    assert(normalized_delay(frames[i].delay, fallback) > 0);
    assert(next.next_update > now);
    assert(catch_up_steps(next, frames, now, fallback, (MAX_ANIM_CATCHUP_STEPS - 1) as nat) == 0);
}

/// The animation after `n` ticks in which it follows the frame rate.
pub open spec fn after_frames(anim: AnimState, frames: Seq<Frame>, now: u64, fallback: u64, n: nat) -> AnimState
    decreases n,
{
    if n == 0 {
        anim
    } else {
        advance_spec(after_frames(anim, frames, now, fallback, (n - 1) as nat), frames, true, now, fallback).0
    }
}

/// An animation that follows the frame rate shows its frames in turn.
///
/// Started with its counter at zero, it shows frame `k` in the tick that
/// follows `k` earlier ticks, for every frame `k`. So each of its `n` frames
/// was shown after `n` ticks, which is within `n * (n + 1) / 2` ticks.
pub proof fn lemma_follow_fps_visits_every_frame(
    anim: AnimState,
    frames: Seq<Frame>,
    now: u64,
    fallback: u64,
    k: nat,
)
    requires
        anim.ticks == 0,
        k < frames.len() <= usize::MAX,
    ensures
        after_frames(anim, frames, now, fallback, k).ticks == k,
        advance_spec(after_frames(anim, frames, now, fallback, k), frames, true, now, fallback).1 == Some(
            k as usize,
        ),
        k + 1 <= frames.len() <= frames.len() * (frames.len() + 1) / 2,
    decreases k,
{
    if k > 0 {
        lemma_follow_fps_visits_every_frame(anim, frames, now, fallback, (k - 1) as nat);
    }
    vstd::arithmetic::div_mod::lemma_small_mod(k, frames.len());
    let n = frames.len() as int;
    assert(n <= n * (n + 1) / 2) by (nonlinear_arith)
        requires
            n >= 1,
    ;
}

} // verus!
