//! What the base station reports on its input endpoint.

use crate::report::{ControlReport, BASE_STATION_VOLUME_MAX, CONTROL_REPORT_SIZE};
use vstd::prelude::*;

verus! {

/// The report id that every input report of interest starts with.
pub const INPUT_REPORT_ID: u8 = 0x07;

/// The command byte of a volume report.
pub const EVENT_VOLUME: u8 = 0x25;

/// The command byte of a headset connection report.
pub const EVENT_CONNECTION: u8 = 0xb5;

/// The command byte of a battery report.
pub const EVENT_BATTERY: u8 = 0xb7;

/// Something that the base station told the host.
#[derive(Clone, Copy, Debug, PartialEq, Eq, Structural)]
pub enum DeviceEvent {
    /// The base station volume, from 0 (mute) to 56.
    Volume { volume: u8 },
    /// The battery levels as the device sends them.
    Battery { headset: u8, charging: u8 },
    /// Which links to the headset are up.
    HeadsetConnection { wireless: bool, bluetooth: bool, bluetooth_on: bool },
}

/// The volume that stands for a wire byte, and the wire byte that stands for
/// a volume: the distance to the loudest volume, never below zero.
pub open spec fn volume_mirror(v: u8) -> u8 {
    if v >= BASE_STATION_VOLUME_MAX {
        0u8
    } else {
        (BASE_STATION_VOLUME_MAX - v) as u8
    }
}

/// The event that an input report stands for, if any.
///
/// Only reports that start with 7 are read. The second byte names the kind;
/// other kinds are not events.
pub open spec fn parse_event_spec(buf: Seq<u8>) -> Option<DeviceEvent> {
    if buf[0] != INPUT_REPORT_ID {
        None
    } else if buf[1] == EVENT_VOLUME {
        Some(DeviceEvent::Volume { volume: volume_mirror(buf[2]) })
    } else if buf[1] == EVENT_CONNECTION {
        Some(
            DeviceEvent::HeadsetConnection {
                wireless: buf[4] == 8,
                bluetooth: buf[3] == 1,
                bluetooth_on: buf[2] == 4,
            },
        )
    } else if buf[1] == EVENT_BATTERY {
        Some(DeviceEvent::Battery { headset: buf[2], charging: buf[3] })
    } else {
        None
    }
}

/// The five leading bytes of the input report that carries `event`.
pub open spec fn input_head(event: DeviceEvent) -> Seq<u8> {
    match event {
        DeviceEvent::Volume { volume } => seq![INPUT_REPORT_ID, EVENT_VOLUME, volume_mirror(volume), 0u8, 0u8],
        DeviceEvent::Battery { headset, charging } => seq![
            INPUT_REPORT_ID,
            EVENT_BATTERY,
            headset,
            charging,
            0u8,
        ],
        DeviceEvent::HeadsetConnection { wireless, bluetooth, bluetooth_on } => seq![
            INPUT_REPORT_ID,
            EVENT_CONNECTION,
            if bluetooth_on {
                4u8
            } else {
                0u8
            },
            if bluetooth {
                1u8
            } else {
                0u8
            },
            if wireless {
                8u8
            } else {
                0u8
            },
        ],
    }
}

/// The input report that carries `event`: its head, then zeros.
pub open spec fn encode_input_spec(event: DeviceEvent) -> Seq<u8> {
    Seq::new(
        CONTROL_REPORT_SIZE as nat,
        |i: int|
            if i < 5 {
                input_head(event)[i]
            } else {
                0u8
            },
    )
}

/// An event that some input report stands for: a volume is at most 56.
pub open spec fn representable(event: DeviceEvent) -> bool {
    match event {
        DeviceEvent::Volume { volume } => volume <= BASE_STATION_VOLUME_MAX,
        _ => true,
    }
}

/// Reading the report that carries an event gives the event back.
pub proof fn lemma_parse_encode_round_trip(event: DeviceEvent)
    requires
        representable(event),
    ensures
        parse_event_spec(encode_input_spec(event)) == Some(event),
{
    let buf = encode_input_spec(event);
    assert(buf[0] == input_head(event)[0]);
    assert(buf[1] == input_head(event)[1]);
    assert(buf[2] == input_head(event)[2]);
    assert(buf[3] == input_head(event)[3]);
    assert(buf[4] == input_head(event)[4]);
}

/// Reads one input report.
pub fn parse_event(buf: &ControlReport) -> (r: Option<DeviceEvent>)
    ensures
        r == parse_event_spec(buf@),
{
    if buf[0] != INPUT_REPORT_ID {
        return None;
    }
    let kind = buf[1];
    if kind == EVENT_VOLUME {
        Some(DeviceEvent::Volume { volume: BASE_STATION_VOLUME_MAX.saturating_sub(buf[2]) })
    } else if kind == EVENT_CONNECTION {
        Some(
            DeviceEvent::HeadsetConnection {
                wireless: buf[4] == 8,
                bluetooth: buf[3] == 1,
                bluetooth_on: buf[2] == 4,
            },
        )
    } else if kind == EVENT_BATTERY {
        Some(DeviceEvent::Battery { headset: buf[2], charging: buf[3] })
    } else {
        None
    }
}

/// Writes the input report that carries `event`.
pub fn encode_input(event: DeviceEvent) -> (buf: ControlReport)
    ensures
        buf@ == encode_input_spec(event),
{
    let mut buf: ControlReport = [0u8;CONTROL_REPORT_SIZE];
    buf[0] = INPUT_REPORT_ID;
    match event {
        DeviceEvent::Volume { volume } => {
            buf[1] = EVENT_VOLUME;
            buf[2] = BASE_STATION_VOLUME_MAX.saturating_sub(volume);
        },
        DeviceEvent::Battery { headset, charging } => {
            buf[1] = EVENT_BATTERY;
            buf[2] = headset;
            buf[3] = charging;
        },
        DeviceEvent::HeadsetConnection { wireless, bluetooth, bluetooth_on } => {
            buf[1] = EVENT_CONNECTION;
            if bluetooth_on {
                buf[2] = 4;
            }
            if bluetooth {
                buf[3] = 1;
            }
            if wireless {
                buf[4] = 8;
            }
        },
    }
    assert(buf@ =~= encode_input_spec(event));
    buf
}

/// The events among a run of input reports, in the order of the reports.
pub open spec fn parsed_events(reports: Seq<ControlReport>) -> Seq<DeviceEvent>
    decreases reports.len(),
{
    if reports.len() == 0 {
        Seq::empty()
    } else {
        let before = parsed_events(reports.drop_last());
        match parse_event_spec(reports.last()@) {
            Some(event) => before.push(event),
            None => before,
        }
    }
}

/// Reads a run of input reports and keeps the events, in order. Reports that
/// are no events are passed over.
pub fn parse_events(reports: &Vec<ControlReport>) -> (events: Vec<DeviceEvent>)
    ensures
        events@ == parsed_events(reports@),
{
    let mut events: Vec<DeviceEvent> = Vec::with_capacity(4);
    let mut i: usize = 0;
    while i < reports.len()
        invariant
            i <= reports.len(),
            events@ == parsed_events(reports@.take(i as int)),
        decreases reports.len() - i,
    {
        proof {
            assert(reports@.take(i + 1).drop_last() =~= reports@.take(i as int));
        }
        if let Some(event) = parse_event(&reports[i]) {
            events.push(event);
        }
        i += 1;
    }
    proof {
        assert(reports@.take(reports.len() as int) =~= reports@);
    }
    events
}

} // verus!
