use ggoled::bitmap::Bitmap;
use ggoled::platform::{
    capabilities, ensure_accessibility_permission, get_autostart, get_idle_seconds, media_from_fields, set_autostart,
    start_volume_key_listener, Media, NowPlayingInfo, PlatformCapabilities, VolumeKeySignal,
};
use ggoled::volume::{
    make_volume_icon, notification_left, volume_after_key, volume_from_percent, volume_icon_level,
    volume_to_percent,
};

fn rows_from_bitmap(bitmap: &Bitmap) -> Vec<String> {
    (0..bitmap.h)
        .map(|y| (0..bitmap.w).map(|x| if bitmap.get(x, y) { '1' } else { '0' }).collect())
        .collect()
}

#[test]
fn percent_maps_to_the_nearest_volume() {
    assert_eq!(volume_from_percent(0), 0);
    assert_eq!(volume_from_percent(25), 14);
    assert_eq!(volume_from_percent(50), 28);
    assert_eq!(volume_from_percent(75), 42);
    assert_eq!(volume_from_percent(100), 56);
    assert_eq!(volume_from_percent(1), 1);
    assert_eq!(volume_from_percent(255), 143);
}

#[test]
fn volume_maps_to_the_nearest_percent() {
    assert_eq!(volume_to_percent(0), 0);
    assert_eq!(volume_to_percent(14), 25);
    assert_eq!(volume_to_percent(28), 50);
    assert_eq!(volume_to_percent(42), 75);
    assert_eq!(volume_to_percent(56), 100);
    assert_eq!(volume_to_percent(1), 2);
    assert_eq!(volume_to_percent(57), 100);
    assert_eq!(volume_to_percent(255), 100);
}

#[test]
fn percent_and_volume_agree_on_every_volume() {
    for volume in 0..=56u8 {
        assert_eq!(volume_from_percent(volume_to_percent(volume)), volume);
    }
}

#[test]
fn icon_level_follows_the_percentage() {
    let levels: Vec<usize> = [0u8, 1, 32, 33, 64, 65, 99, 100, 255].iter().map(|p| volume_icon_level(*p)).collect();
    assert_eq!(levels, vec![0, 1, 1, 2, 2, 3, 3, 4, 4]);
}

#[test]
fn keys_step_the_volume() {
    assert_eq!(volume_after_key(Some(20), VolumeKeySignal::Up), 24);
    assert_eq!(volume_after_key(Some(20), VolumeKeySignal::Down), 16);
    assert_eq!(volume_after_key(Some(20), VolumeKeySignal::Mute), 0);
    assert_eq!(volume_after_key(Some(54), VolumeKeySignal::Up), 56);
    assert_eq!(volume_after_key(Some(56), VolumeKeySignal::Up), 56);
    assert_eq!(volume_after_key(Some(255), VolumeKeySignal::Up), 56);
    assert_eq!(volume_after_key(Some(3), VolumeKeySignal::Down), 0);
    assert_eq!(volume_after_key(None, VolumeKeySignal::Up), 32);
    assert_eq!(volume_after_key(None, VolumeKeySignal::Down), 24);
    assert_eq!(volume_after_key(None, VolumeKeySignal::Mute), 0);
}

#[test]
fn loudest_icon_has_three_waves() {
    assert_eq!(
        rows_from_bitmap(&make_volume_icon(3, false)),
        vec![
            "000000000100",
            "000100010010",
            "011101001001",
            "111100101001",
            "111100101001",
            "111100101001",
            "011101001001",
            "000100010010",
            "000000000100",
        ]
    );
}

#[test]
fn muted_icon_has_a_cross() {
    assert_eq!(
        rows_from_bitmap(&make_volume_icon(0, true)),
        vec![
            "000000000000",
            "000100000000",
            "011100010010",
            "111100001100",
            "111100001100",
            "111100010010",
            "011100000000",
            "000100000000",
            "000000000000",
        ]
    );
}

#[test]
fn waves_come_one_by_one() {
    let set = |waves: u8| make_volume_icon(waves, false).data.iter().filter(|bit| *bit).count();
    assert_eq!(set(0), 20);
    assert_eq!(set(1), 25);
    assert_eq!(set(2), 32);
    assert_eq!(set(3), 41);
    assert_eq!(set(200), 41);
    // the cross shares two pixels with the second wave
    assert_eq!(make_volume_icon(2, true).data.iter().filter(|bit| *bit).count(), 32 + 8 - 2);
    let icon = make_volume_icon(1, false);
    assert_eq!((icon.w, icon.h), (12, 9));
}

#[test]
fn plain_platform_offers_media_only() {
    assert_eq!(capabilities(), PlatformCapabilities { media: true, idle_timeout: false, autostart: false });
    set_autostart(true);
    assert!(!get_autostart());
    set_autostart(false);
    assert!(!get_autostart());
    assert_eq!(get_idle_seconds(), 0);
    assert!(start_volume_key_listener().is_none());
    assert!(ensure_accessibility_permission(true));
    assert!(ensure_accessibility_permission(false));
}

#[test]
fn media_compares_by_title_and_artist() {
    let a = Media { title: "Song".to_string(), artist: "Band".to_string() };
    let b = Media { title: "Song".to_string(), artist: "Band".to_string() };
    let c = Media { title: "Song".to_string(), artist: "Other".to_string() };
    assert_eq!(a, b);
    assert_ne!(a, c);
    let info = NowPlayingInfo::default();
    assert_eq!((info.is_playing, info.title, info.artist), (None, None, None));
}

#[test]
fn media_needs_a_title() {
    let some = |s: &str| Some(s.to_string());
    assert_eq!(
        media_from_fields(some("Song"), some("Band")),
        Some(Media { title: "Song".to_string(), artist: "Band".to_string() })
    );
    assert_eq!(
        media_from_fields(some("Song"), None),
        Some(Media { title: "Song".to_string(), artist: String::new() })
    );
    assert_eq!(media_from_fields(some(""), some("Band")), None);
    assert_eq!(media_from_fields(None, some("Band")), None);
    assert_eq!(media_from_fields(None, None), None);
}

#[test]
fn notification_ends_at_the_right_edge() {
    assert_eq!(notification_left(128, 12, 1, 21), 94);
    assert_eq!(notification_left(128, 12, 1, 115), 0);
    assert_eq!(notification_left(128, 12, 1, 500), 0);
    assert_eq!(notification_left(128, 0, 0, 0), 128);
    assert_eq!(notification_left(usize::MAX, 0, 0, 0), isize::MAX);
    assert_eq!(notification_left(5, usize::MAX, usize::MAX, usize::MAX), 0);
}
