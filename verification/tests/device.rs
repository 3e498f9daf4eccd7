use ggoled::bitmap::Bitmap;
use ggoled::device::{
    connect_plan, is_supported, retry_step, select_endpoints, ConnectPlan, Device, DeviceError, DeviceInfo,
    Endpoints, RetryStep,
};

fn info(vendor_id: u16, product_id: u16, interface_number: i32, path: &str) -> DeviceInfo {
    DeviceInfo { vendor_id, product_id, interface_number, path: path.as_bytes().to_vec() }
}

#[test]
fn volume_goes_on_the_wire_counting_down() {
    let dev = Device::new(true);
    let quiet = dev.set_volume(0).unwrap();
    assert_eq!(&quiet[..3], &[0x06, 0x25, 0x38]);
    assert!(quiet[3..].iter().all(|b| *b == 0));
    let loud = dev.set_volume(56).unwrap();
    assert_eq!(&loud[..3], &[0x06, 0x25, 0x00]);
    let some = dev.set_volume(20).unwrap();
    assert_eq!(&some[..3], &[0x06, 0x25, 36]);
    assert_eq!(dev.set_volume(57), Err(DeviceError::VolumeTooHigh));
    assert_eq!(dev.set_volume(255), Err(DeviceError::VolumeTooHigh));
}

#[test]
fn brightness_is_checked_before_it_is_sent() {
    let dev = Device::new(false);
    assert_eq!(dev.set_brightness(0), Err(DeviceError::BrightnessTooLow));
    assert_eq!(dev.set_brightness(11), Err(DeviceError::BrightnessTooHigh));
    let low = dev.set_brightness(1).unwrap();
    assert_eq!(&low[..3], &[0x06, 0x85, 0x01]);
    let high = dev.set_brightness(10).unwrap();
    assert_eq!(&high[..3], &[0x06, 0x85, 0x0a]);
    assert!(high[3..].iter().all(|b| *b == 0));
    assert_eq!(high.len(), 64);
}

#[test]
fn return_to_ui_is_a_bare_command() {
    let report = Device::new(true).return_to_ui();
    assert_eq!(&report[..2], &[0x06, 0x95]);
    assert!(report[2..].iter().all(|b| *b == 0));
}

#[test]
fn errors_have_their_messages() {
    assert_eq!(DeviceError::NoMatchingDevices.message(), "No matching devices connected");
    assert_eq!(DeviceError::NoOledDevice.message(), "No OLED device found");
    assert_eq!(DeviceError::BrightnessTooLow.message(), "brightness too low");
    assert_eq!(DeviceError::BrightnessTooHigh.message(), "brightness too high");
    assert_eq!(DeviceError::VolumeTooHigh.message(), "volume too high");
}

#[test]
fn new_device_has_the_screen_size() {
    let dev = Device::new(true);
    assert_eq!((dev.width, dev.height), (128, 64));
    assert!(dev.has_info);
    assert_eq!(dev.info_blocking_mode, None);
    assert!(!Device::new(false).has_info);
}

#[test]
fn screen_height_is_checked() {
    let mut dev = Device::new(true);
    assert!(dev.is_valid());
    dev.height = 120;
    assert!(dev.is_valid());
    dev.height = 121;
    assert!(!dev.is_valid());
}

#[test]
fn draw_sends_one_report_per_64_columns() {
    let dev = Device::new(true);
    let screen = Bitmap::new(128, 64, true);
    let reports = dev.draw(&screen, 0, 0);
    assert_eq!(reports.len(), 2);
    assert_eq!(&reports[0][..6], &[0x06, 0x93, 0, 0, 64, 64]);
    assert_eq!(&reports[1][..6], &[0x06, 0x93, 64, 0, 64, 64]);
    assert!(reports[0][6..6 + 512].iter().all(|b| *b == 0xff));
    assert!(reports[0][6 + 512..].iter().all(|b| *b == 0));
    assert!(dev.draw(&screen, 128, 0).is_empty());
}

#[test]
fn blocking_mode_is_switched_only_on_change() {
    let mut dev = Device::new(true);
    assert!(dev.needs_mode_switch(false));
    assert!(dev.needs_mode_switch(true));
    dev.set_info_blocking_mode(false);
    assert_eq!(dev.info_blocking_mode, Some(false));
    assert!(!dev.needs_mode_switch(false));
    assert!(dev.needs_mode_switch(true));
    dev.set_info_blocking_mode(true);
    assert!(dev.needs_mode_switch(false));
    let mut single = Device::new(false);
    assert!(!single.needs_mode_switch(true));
    single.set_info_blocking_mode(true);
    assert_eq!(single.info_blocking_mode, None);
}

#[test]
fn eleven_failed_writes_end_the_retries() {
    let mut waits = Vec::new();
    let mut failures = 0u64;
    let attempts = loop {
        // every write fails
        match retry_step(failures) {
            RetryStep::Wait { millis } => {
                waits.push(millis);
                failures += 1;
            }
            RetryStep::GiveUp => break failures + 1,
        }
    };
    assert_eq!(attempts, 11);
    assert_eq!(waits, vec![1, 4, 9, 16, 25, 36, 49, 64, 81, 100]);
    assert_eq!(retry_step(10), RetryStep::GiveUp);
    assert_eq!(retry_step(u64::MAX), RetryStep::GiveUp);
}

#[test]
fn only_supported_interfaces_are_candidates() {
    for pid in [0x12cb, 0x12cd, 0x12e0, 0x12e5, 0x225d] {
        assert!(is_supported(&info(0x1038, pid, 4, "a")));
        assert!(!is_supported(&info(0x1038, pid, 3, "a")));
        assert!(!is_supported(&info(0x1037, pid, 4, "a")));
    }
    assert!(!is_supported(&info(0x1038, 0x12cc, 4, "a")));
}

#[test]
fn no_candidate_fails_the_connection() {
    assert!(matches!(connect_plan(&Vec::new()), Err(DeviceError::NoMatchingDevices)));
    let others = vec![info(0x1038, 0x12cb, 0, "a"), info(0x046d, 0x12cb, 4, "b")];
    assert!(matches!(connect_plan(&others), Err(DeviceError::NoMatchingDevices)));
}

#[test]
fn one_shared_path_is_opened_twice() {
    let infos = vec![
        info(0x046d, 0x0001, 0, "/dev/x"),
        info(0x1038, 0x12e0, 4, "/dev/hid7"),
        info(0x1038, 0x12e0, 4, "/dev/hid7"),
    ];
    assert!(matches!(connect_plan(&infos), Ok(ConnectPlan::SharedPath { index: 1 })));
    let single = vec![info(0x1038, 0x12cb, 4, "/dev/hid1")];
    assert!(matches!(connect_plan(&single), Ok(ConnectPlan::SharedPath { index: 0 })));
}

#[test]
fn different_paths_are_opened_one_by_one() {
    let infos = vec![
        info(0x1038, 0x12e0, 4, "/dev/hid7"),
        info(0x1038, 0x12e0, 1, "/dev/hid8"),
        info(0x1038, 0x12e0, 4, "/dev/hid9"),
        info(0x1038, 0x12e0, 4, "/dev/hid7x"),
    ];
    match connect_plan(&infos) {
        Ok(ConnectPlan::Separate { indices }) => assert_eq!(indices, vec![0, 2, 3]),
        _ => panic!("expected separate interfaces"),
    }
}

#[test]
fn endpoints_are_told_apart_by_descriptor() {
    let oled = vec![0x06, 0xc0, 0xff];
    let known = vec![0x06, 0x00, 0xff];
    let other = vec![0x05, 0x01];
    assert_eq!(
        select_endpoints(&vec![known.clone(), oled.clone()]),
        Ok(Endpoints { oled: 1, info: Some(0), fallback: false })
    );
    assert_eq!(
        select_endpoints(&vec![oled.clone(), other.clone(), known.clone()]),
        Ok(Endpoints { oled: 0, info: Some(2), fallback: false })
    );
    assert_eq!(
        select_endpoints(&vec![other.clone(), oled.clone()]),
        Ok(Endpoints { oled: 1, info: Some(0), fallback: true })
    );
    assert_eq!(select_endpoints(&vec![oled.clone()]), Ok(Endpoints { oled: 0, info: None, fallback: false }));
    assert_eq!(
        select_endpoints(&vec![oled.clone(), oled.clone()]),
        Ok(Endpoints { oled: 0, info: None, fallback: false })
    );
    assert_eq!(
        select_endpoints(&vec![oled.clone(), vec![0x06]]),
        Ok(Endpoints { oled: 0, info: Some(1), fallback: true })
    );
}

#[test]
fn last_interface_takes_the_place_of_the_display() {
    let oled = vec![0x06, 0xc0];
    let known = vec![0x06, 0x00];
    // the last interface is looked at first once the display at 0 is taken out
    assert_eq!(
        select_endpoints(&vec![oled.clone(), known.clone(), known.clone()]),
        Ok(Endpoints { oled: 0, info: Some(2), fallback: false })
    );
    let other = vec![0x01, 0x02];
    assert_eq!(
        select_endpoints(&vec![oled.clone(), other.clone(), vec![0x09, 0x09]]),
        Ok(Endpoints { oled: 0, info: Some(2), fallback: true })
    );
}

#[test]
fn missing_display_endpoint_fails() {
    assert_eq!(select_endpoints(&Vec::new()), Err(DeviceError::NoOledDevice));
    assert_eq!(select_endpoints(&vec![vec![0x06, 0x00], vec![0xc0]]), Err(DeviceError::NoOledDevice));
}
