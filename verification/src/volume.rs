//! The base station volume as the user sees it: percentages, key presses and
//! the icon of the volume notification.

use crate::bitmap::{lemma_index_in_bounds, lemma_index_split, lemma_raster_ext, Bitmap, Raster};
use crate::platform::VolumeKeySignal;
use crate::report::BASE_STATION_VOLUME_MAX;
use vstd::prelude::*;

verus! {

/// By how much one press of a volume key changes the volume.
pub const BASE_STATION_VOLUME_STEP: u8 = 4;

/// The width of the volume icon in pixels.
pub const VOLUME_ICON_WIDTH: usize = 12;

/// The height of the volume icon in pixels.
pub const VOLUME_ICON_HEIGHT: usize = 9;

/// The volume, from 0 to 56, nearest to a percentage.
pub open spec fn volume_from_percent_spec(percent: u8) -> int {
    (percent * BASE_STATION_VOLUME_MAX + 50) / 100
}

/// The percentage nearest to a volume; a volume above 56 counts as 56.
pub open spec fn volume_to_percent_spec(volume: u8) -> int {
    let v = if volume > BASE_STATION_VOLUME_MAX {
        BASE_STATION_VOLUME_MAX
    } else {
        volume
    };
    (v * 100 + BASE_STATION_VOLUME_MAX / 2) / (BASE_STATION_VOLUME_MAX as int)
}

/// The volume, from 0 to 56, nearest to a percentage.
pub fn volume_from_percent(percent: u8) -> (r: u8)
    ensures
        r == volume_from_percent_spec(percent),
        percent <= 100 ==> r <= BASE_STATION_VOLUME_MAX,
{
    assert(percent * BASE_STATION_VOLUME_MAX == percent * 56);
    let scaled: u16 = (percent as u16) * (BASE_STATION_VOLUME_MAX as u16) + 50;
    (scaled / 100) as u8
}

/// The percentage nearest to a volume; a volume above 56 counts as 56.
pub fn volume_to_percent(volume: u8) -> (r: u8)
    ensures
        r == volume_to_percent_spec(volume),
        r <= 100,
{
    let v: u8 = if volume > BASE_STATION_VOLUME_MAX {
        BASE_STATION_VOLUME_MAX
    } else {
        volume
    };
    let scaled: u16 = (v as u16) * 100 + (BASE_STATION_VOLUME_MAX as u16 / 2);
    (scaled / (BASE_STATION_VOLUME_MAX as u16)) as u8
}

/// Which of the five volume icons shows a percentage: 0 for mute, 1 up to
/// 32, 2 up to 64, 3 below 100 and 4 from 100.
pub fn volume_icon_level(percent: u8) -> (r: usize)
    ensures
        r == (if percent == 0 {
            0int
        } else if percent <= 32 {
            1
        } else if percent <= 64 {
            2
        } else if percent >= 100 {
            4
        } else {
            3
        }),
{
    if percent == 0 {
        0
    } else if percent <= 32 {
        1
    } else if percent <= 64 {
        2
    } else if percent >= 100 {
        4
    } else {
        3
    }
}

/// The volume after a volume key was pressed. A volume that is not known yet
/// counts as half of the loudest. One press changes the volume by
/// [`BASE_STATION_VOLUME_STEP`] within 0 and 56; mute sets it to 0.
pub fn volume_after_key(current: Option<u8>, signal: VolumeKeySignal) -> (next: u8)
    ensures
        next == ({
            let now = match current {
                Some(v) => v as int,
                None => BASE_STATION_VOLUME_MAX as int / 2,
            };
            match signal {
                VolumeKeySignal::Up => if now + BASE_STATION_VOLUME_STEP > BASE_STATION_VOLUME_MAX {
                    BASE_STATION_VOLUME_MAX as int
                } else {
                    now + BASE_STATION_VOLUME_STEP
                },
                VolumeKeySignal::Down => if now < BASE_STATION_VOLUME_STEP {
                    0
                } else {
                    now - BASE_STATION_VOLUME_STEP
                },
                VolumeKeySignal::Mute => 0,
            }
        }),
{
    let now: u8 = match current {
        Some(v) => v,
        None => BASE_STATION_VOLUME_MAX / 2,
    };
    match signal {
        VolumeKeySignal::Up => {
            let up = now.saturating_add(BASE_STATION_VOLUME_STEP);
            if up > BASE_STATION_VOLUME_MAX {
                BASE_STATION_VOLUME_MAX
            } else {
                up
            }
        },
        VolumeKeySignal::Down => now.saturating_sub(BASE_STATION_VOLUME_STEP),
        VolumeKeySignal::Mute => 0,
    }
}

/// The left edge of a notification that shows an icon `icon_w` wide, a gap of
/// `gap` pixels and a text `text_w` wide: the notification ends at the right
/// edge of a screen `screen_w` wide, but never starts to the left of it.
pub fn notification_left(screen_w: usize, icon_w: usize, gap: usize, text_w: usize) -> (x: isize)
    ensures
        x == (if icon_w + gap + text_w >= screen_w {
            0
        } else if screen_w - (icon_w + gap + text_w) > isize::MAX {
            isize::MAX as int
        } else {
            screen_w - (icon_w + gap + text_w)
        }),
{
    let total: u128 = icon_w as u128 + gap as u128 + text_w as u128;
    if total >= screen_w as u128 {
        0
    } else {
        let left: u128 = screen_w as u128 - total;
        if left > isize::MAX as u128 {
            isize::MAX
        } else {
            left as isize
        }
    }
}

/// The loudspeaker of the volume icon: a box that widens into a cone.
pub open spec fn speaker_pixel(x: int, y: int) -> bool {
    (x == 0 && 3 <= y <= 5) || ((x == 1 || x == 2) && 2 <= y <= 6) || (x == 3 && 1 <= y <= 7)
}

/// The sound wave with number `wave`, from 1 next to the loudspeaker to 3.
pub open spec fn wave_pixel(wave: int, x: int, y: int) -> bool {
    if wave == 1 {
        (x == 5 && (y == 2 || y == 6)) || (x == 6 && 3 <= y <= 5)
    } else if wave == 2 {
        (x == 7 && (y == 1 || y == 7)) || (x == 8 && 2 <= y <= 6)
    } else if wave == 3 {
        (x == 9 && (y == 0 || y == 8)) || (x == 10 && (y == 1 || y == 7)) || (x == 11 && 2 <= y <= 6)
    } else {
        false
    }
}

/// The cross that marks the icon as muted.
pub open spec fn mute_pixel(x: int, y: int) -> bool {
    7 <= x <= 10 && (y == x - 5 || y == 12 - x)
}

/// Whether a pixel of the volume icon is set: the loudspeaker always, the
/// first `waves` sound waves, and the cross where `muted`.
pub open spec fn volume_icon_pixel(waves: u8, muted: bool, x: int, y: int) -> bool {
    speaker_pixel(x, y) || (waves >= 1 && wave_pixel(1, x, y)) || (waves >= 2 && wave_pixel(2, x, y)) || (waves
        >= 3 && wave_pixel(3, x, y)) || (muted && mute_pixel(x, y))
}

/// The volume icon as a raster.
pub open spec fn volume_icon(waves: u8, muted: bool) -> Raster {
    Raster {
        w: VOLUME_ICON_WIDTH as nat,
        h: VOLUME_ICON_HEIGHT as nat,
        bits: Seq::new(
            (VOLUME_ICON_WIDTH * VOLUME_ICON_HEIGHT) as nat,
            |i: int|
                volume_icon_pixel(waves, muted, i % (VOLUME_ICON_WIDTH as int), i / (VOLUME_ICON_WIDTH as int)),
        ),
    }
}

/// Whether a pixel of the volume icon is set.
fn icon_pixel(waves: u8, muted: bool, x: usize, y: usize) -> (r: bool)
    requires
        x < VOLUME_ICON_WIDTH,
        y < VOLUME_ICON_HEIGHT,
    ensures
        r == volume_icon_pixel(waves, muted, x as int, y as int),
{
    let speaker = (x == 0 && 3 <= y && y <= 5) || ((x == 1 || x == 2) && 2 <= y && y <= 6) || (x == 3 && 1 <= y
        && y <= 7);
    let wave_1 = (x == 5 && (y == 2 || y == 6)) || (x == 6 && 3 <= y && y <= 5);
    let wave_2 = (x == 7 && (y == 1 || y == 7)) || (x == 8 && 2 <= y && y <= 6);
    let wave_3 = (x == 9 && (y == 0 || y == 8)) || (x == 10 && (y == 1 || y == 7)) || (x == 11 && 2 <= y && y
        <= 6);
    let cross = 7 <= x && x <= 10 && (y + 5 == x || y + x == 12);
    speaker || (waves >= 1 && wave_1) || (waves >= 2 && wave_2) || (waves >= 3 && wave_3) || (muted && cross)
}

/// Draws the volume icon: a loudspeaker with up to three sound waves, and a
/// cross over the waves where `muted`.
pub fn make_volume_icon(waves: u8, muted: bool) -> (icon: Bitmap)
    ensures
        icon.wf(),
        icon@ == volume_icon(waves, muted),
{
    let mut icon = Bitmap::new(VOLUME_ICON_WIDTH, VOLUME_ICON_HEIGHT, false);
    let ghost want = volume_icon(waves, muted);
    let mut y: usize = 0;
    while y < VOLUME_ICON_HEIGHT
        invariant
            y <= VOLUME_ICON_HEIGHT,
            icon.wf(),
            icon.w == VOLUME_ICON_WIDTH,
            icon.h == VOLUME_ICON_HEIGHT,
            forall|px: int, py: int|
                0 <= px < VOLUME_ICON_WIDTH && 0 <= py < VOLUME_ICON_HEIGHT ==> #[trigger] icon@.pixel(px, py) == (
                py < y && volume_icon_pixel(waves, muted, px, py)),
        decreases VOLUME_ICON_HEIGHT - y,
    {
        let mut x: usize = 0;
        while x < VOLUME_ICON_WIDTH
            invariant
                y < VOLUME_ICON_HEIGHT,
                x <= VOLUME_ICON_WIDTH,
                icon.wf(),
                icon.w == VOLUME_ICON_WIDTH,
                icon.h == VOLUME_ICON_HEIGHT,
                forall|px: int, py: int|
                    0 <= px < VOLUME_ICON_WIDTH && 0 <= py < VOLUME_ICON_HEIGHT ==> #[trigger] icon@.pixel(px, py)
                        == ((py < y || (py == y && px < x)) && volume_icon_pixel(waves, muted, px, py)),
            decreases VOLUME_ICON_WIDTH - x,
        {
            if icon_pixel(waves, muted, x, y) {
                icon.set(x, y, true);
            }
            x += 1;
        }
        y += 1;
    }
    proof {
        assert(want.wf());
        assert forall|px: int, py: int| want.contains(px, py) implies #[trigger] want.pixel(px, py) == icon@.pixel(
            px,
            py,
        ) by {
            lemma_index_in_bounds(px, py, VOLUME_ICON_WIDTH as int, VOLUME_ICON_HEIGHT as int);
            lemma_index_split(px, py, VOLUME_ICON_WIDTH as int);
        }
        lemma_raster_ext(want, icon@);
    }
    icon
}

} // verus!
