use ggoled::event::{encode_input, parse_event, parse_events, DeviceEvent};

fn report(head: &[u8]) -> [u8; 64] {
    let mut buf = [0u8; 64];
    buf[..head.len()].copy_from_slice(head);
    buf
}

#[test]
fn volume_report_parses() {
    assert_eq!(parse_event(&report(&[0x07, 0x25, 0x30])), Some(DeviceEvent::Volume { volume: 8 }));
    assert_eq!(parse_event(&report(&[0x07, 0x25, 0x00])), Some(DeviceEvent::Volume { volume: 56 }));
    assert_eq!(parse_event(&report(&[0x07, 0x25, 0x38])), Some(DeviceEvent::Volume { volume: 0 }));
    assert_eq!(parse_event(&report(&[0x07, 0x25, 0xff])), Some(DeviceEvent::Volume { volume: 0 }));
}

#[test]
fn connection_report_parses() {
    assert_eq!(
        parse_event(&report(&[0x07, 0xb5, 0x04, 0x01, 0x08])),
        Some(DeviceEvent::HeadsetConnection { wireless: true, bluetooth: true, bluetooth_on: true })
    );
    assert_eq!(
        parse_event(&report(&[0x07, 0xb5, 0x00, 0x02, 0x07])),
        Some(DeviceEvent::HeadsetConnection { wireless: false, bluetooth: false, bluetooth_on: false })
    );
}

#[test]
fn battery_report_parses() {
    assert_eq!(
        parse_event(&report(&[0x07, 0xb7, 0x05, 0x08, 0x08])),
        Some(DeviceEvent::Battery { headset: 5, charging: 8 })
    );
}

#[test]
fn other_reports_are_no_events() {
    assert_eq!(parse_event(&report(&[0x07, 0x42])), None);
    assert_eq!(parse_event(&report(&[0x06, 0x25, 0x30])), None);
    assert_eq!(parse_event(&report(&[])), None);
}

#[test]
fn parse_gives_back_what_encode_wrote() {
    let mut events = vec![
        DeviceEvent::Battery { headset: 0, charging: 255 },
        DeviceEvent::Battery { headset: 8, charging: 3 },
    ];
    for volume in 0..=56u8 {
        events.push(DeviceEvent::Volume { volume });
    }
    for bits in 0..8u8 {
        events.push(DeviceEvent::HeadsetConnection {
            wireless: bits & 1 != 0,
            bluetooth: bits & 2 != 0,
            bluetooth_on: bits & 4 != 0,
        });
    }
    for event in events {
        assert_eq!(parse_event(&encode_input(event)), Some(event));
    }
}

#[test]
fn encode_writes_the_wire_bytes() {
    assert_eq!(encode_input(DeviceEvent::Volume { volume: 8 }), report(&[0x07, 0x25, 0x30]));
    assert_eq!(
        encode_input(DeviceEvent::HeadsetConnection { wireless: true, bluetooth: false, bluetooth_on: true }),
        report(&[0x07, 0xb5, 0x04, 0x00, 0x08])
    );
    assert_eq!(encode_input(DeviceEvent::Battery { headset: 7, charging: 1 }), report(&[0x07, 0xb7, 7, 1]));
    // a volume above the loudest has no wire byte of its own
    assert_eq!(encode_input(DeviceEvent::Volume { volume: 200 }), report(&[0x07, 0x25, 0x00]));
}

#[test]
fn events_keep_the_order_of_the_reports() {
    let reports = vec![
        report(&[0x07, 0x25, 0x30]),
        report(&[0x07, 0x42]),
        report(&[0x07, 0xb7, 1, 2]),
        report(&[0x00]),
        report(&[0x07, 0x25, 0x00]),
    ];
    assert_eq!(
        parse_events(&reports),
        vec![
            DeviceEvent::Volume { volume: 8 },
            DeviceEvent::Battery { headset: 1, charging: 2 },
            DeviceEvent::Volume { volume: 56 },
        ]
    );
    assert!(parse_events(&Vec::new()).is_empty());
}
