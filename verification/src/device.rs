//! The base station as the host sees it: which HID interfaces belong to it,
//! which bytes each command puts on the wire, and how a failed write is tried
//! again. Opening, writing and reading happen elsewhere; this module decides.

use crate::bitmap::Bitmap;
use crate::report::{
    draw_reports, report_chunks, report_encodes, ControlReport, DrawReport, BASE_STATION_VOLUME_MAX,
    CONTROL_REPORT_SIZE, DEVICE_HEIGHT, DEVICE_WIDTH, MAX_SCREEN_HEIGHT,
};
use vstd::prelude::*;

verus! {

/// The USB vendor id of the base stations.
pub const VENDOR_ID: u16 = 0x1038;

/// The HID interface that carries the display and the events.
pub const INTERFACE_NUMBER: i32 = 4;

/// The report id of every command sent to the device.
pub const OUTPUT_REPORT_ID: u8 = 0x06;

/// The command byte that sets the screen brightness.
pub const COMMAND_BRIGHTNESS: u8 = 0x85;

/// The command byte that sets the base station volume.
pub const COMMAND_VOLUME: u8 = 0x25;

/// The command byte that hands the screen back to the device's own interface.
pub const COMMAND_RETURN_TO_UI: u8 = 0x95;

/// The lowest brightness that the device takes.
pub const BRIGHTNESS_MIN: u8 = 0x01;

/// The highest brightness that the device takes.
pub const BRIGHTNESS_MAX: u8 = 0x0a;

/// The second byte of the report descriptor of the display endpoint.
pub const DESCRIPTOR_OLED: u8 = 0xc0;

/// The second byte of the report descriptor of the event endpoint.
pub const DESCRIPTOR_INFO: u8 = 0x00;

/// The number of failed writes after which a report is given up.
pub const MAX_SEND_ATTEMPTS: u64 = 11;

/// Why a command was not sent or a device was not found.
#[derive(Clone, Copy, Debug, PartialEq, Eq, Structural)]
pub enum DeviceError {
    /// No connected HID interface belongs to a supported base station.
    NoMatchingDevices,
    /// None of the opened interfaces is the display endpoint.
    NoOledDevice,
    /// The brightness is below 1.
    BrightnessTooLow,
    /// The brightness is above 10.
    BrightnessTooHigh,
    /// The volume is above 56.
    VolumeTooHigh,
}

impl DeviceError {
    /// The error in words.
    pub fn message(&self) -> (r: &'static str)
        ensures
            r@ == (match *self {
                DeviceError::NoMatchingDevices => "No matching devices connected"@,
                DeviceError::NoOledDevice => "No OLED device found"@,
                DeviceError::BrightnessTooLow => "brightness too low"@,
                DeviceError::BrightnessTooHigh => "brightness too high"@,
                DeviceError::VolumeTooHigh => "volume too high"@,
            }),
    {
        match self {
            DeviceError::NoMatchingDevices => "No matching devices connected",
            DeviceError::NoOledDevice => "No OLED device found",
            DeviceError::BrightnessTooLow => "brightness too low",
            DeviceError::BrightnessTooHigh => "brightness too high",
            DeviceError::VolumeTooHigh => "volume too high",
        }
    }
}

/// What the enumeration tells about one HID interface.
pub struct DeviceInfo {
    pub vendor_id: u16,
    pub product_id: u16,
    pub interface_number: i32,
    pub path: Vec<u8>,
}

/// Whether a product id is one of the supported base stations.
pub open spec fn supported_product(product_id: u16) -> bool {
    product_id == 0x12cb || product_id == 0x12cd || product_id == 0x12e0 || product_id == 0x12e5
        || product_id == 0x225d
}

/// Whether an interface is the one of a supported base station that carries
/// the display.
pub open spec fn is_candidate(info: DeviceInfo) -> bool {
    info.vendor_id == VENDOR_ID && supported_product(info.product_id) && info.interface_number
        == INTERFACE_NUMBER
}

/// The positions of the candidates in an enumeration, in its order.
pub open spec fn candidates(infos: Seq<DeviceInfo>) -> Seq<usize>
    decreases infos.len(),
{
    if infos.len() == 0 {
        Seq::empty()
    } else if is_candidate(infos.last()) {
        candidates(infos.drop_last()).push((infos.len() - 1) as usize)
    } else {
        candidates(infos.drop_last())
    }
}

/// Every listed interface has the path of the first listed one.
pub open spec fn all_same_path(infos: Seq<DeviceInfo>, picks: Seq<usize>) -> bool {
    forall|k: int| 0 <= k < picks.len() ==> (#[trigger] infos[picks[k] as int]).path@ == infos[picks[0] as int].path@
}

/// How to open the endpoints of the base station.
pub enum ConnectPlan {
    /// All candidates share one path: open the interface at `index` for the
    /// display, and once more for the events if that succeeds.
    SharedPath { index: usize },
    /// The candidates differ: open each interface at `indices`, read their
    /// report descriptors and choose with [`select_endpoints`].
    Separate { indices: Vec<usize> },
}

/// The plan that an enumeration calls for.
pub open spec fn connect_plan_spec(infos: Seq<DeviceInfo>) -> Result<(bool, Seq<usize>), DeviceError> {
    let picks = candidates(infos);
    if picks.len() == 0 {
        Err(DeviceError::NoMatchingDevices)
    } else {
        Ok((all_same_path(infos, picks), picks))
    }
}

/// Whether an interface is the one of a supported base station that carries
/// the display.
pub fn is_supported(info: &DeviceInfo) -> (r: bool)
    ensures
        r == is_candidate(*info),
{
    let pid = info.product_id;
    info.vendor_id == VENDOR_ID && (pid == 0x12cb || pid == 0x12cd || pid == 0x12e0 || pid == 0x12e5 || pid
        == 0x225d) && info.interface_number == INTERFACE_NUMBER
}

/// Whether two byte strings are the same.
fn same_bytes(a: &Vec<u8>, b: &Vec<u8>) -> (r: bool)
    ensures
        r == (a@ == b@),
{
    if a.len() != b.len() {
        return false;
    }
    let mut i: usize = 0;
    while i < a.len()
        invariant
            a.len() == b.len(),
            i <= a.len(),
            forall|k: int| 0 <= k < i ==> a[k] == b[k],
        decreases a.len() - i,
    {
        if a[i] != b[i] {
            return false;
        }
        i += 1;
    }
    assert(a@ =~= b@);
    true
}

/// Every candidate position lies inside the enumeration.
pub proof fn lemma_candidates_in_range(infos: Seq<DeviceInfo>)
    requires
        infos.len() <= usize::MAX,
    ensures
        forall|k: int|
            0 <= k < candidates(infos).len() ==> (#[trigger] candidates(infos)[k]) < infos.len() && is_candidate(
                infos[candidates(infos)[k] as int],
            ),
    decreases infos.len(),
{
    if infos.len() > 0 {
        let front = infos.drop_last();
        lemma_candidates_in_range(front);
        assert forall|k: int| 0 <= k < candidates(infos).len() implies (#[trigger] candidates(infos)[k])
            < infos.len() && is_candidate(infos[candidates(infos)[k] as int]) by {
            if k < candidates(front).len() {
                assert(candidates(infos)[k] == candidates(front)[k]);
                assert(front[candidates(front)[k] as int] == infos[candidates(front)[k] as int]);
            }
        }
    }
}

/// Decides from an enumeration how to open the base station.
///
/// Fails when no interface is a candidate. When all candidates share one
/// path, that path is opened twice; otherwise every candidate is opened and
/// the endpoints are told apart by their report descriptors.
pub fn connect_plan(infos: &Vec<DeviceInfo>) -> (r: Result<ConnectPlan, DeviceError>)
    ensures
        match r {
            Ok(ConnectPlan::SharedPath { index }) => connect_plan_spec(infos@) == Ok::<
                (bool, Seq<usize>),
                DeviceError,
            >((true, candidates(infos@))) && index == candidates(infos@)[0],
            Ok(ConnectPlan::Separate { indices }) => connect_plan_spec(infos@) == Ok::<
                (bool, Seq<usize>),
                DeviceError,
            >((false, indices@)),
            Err(e) => connect_plan_spec(infos@) == Err::<(bool, Seq<usize>), DeviceError>(e),
        },
        forall|k: int|
            0 <= k < candidates(infos@).len() ==> (#[trigger] candidates(infos@)[k]) < infos.len(),
{
    let mut picks: Vec<usize> = Vec::new();
    let mut i: usize = 0;
    while i < infos.len()
        invariant
            i <= infos.len(),
            picks@ == candidates(infos@.take(i as int)),
        decreases infos.len() - i,
    {
        proof {
            assert(infos@.take(i + 1).drop_last() =~= infos@.take(i as int));
        }
        if is_supported(&infos[i]) {
            picks.push(i);
        }
        i += 1;
    }
    proof {
        assert(infos@.take(infos.len() as int) =~= infos@);
        lemma_candidates_in_range(infos@);
    }
    if picks.len() == 0 {
        return Err(DeviceError::NoMatchingDevices);
    }
    let first = picks[0];
    let mut same = true;
    let mut k: usize = 0;
    while k < picks.len()
        invariant
            k <= picks.len(),
            first == picks[0],
            first < infos.len(),
            forall|j: int| 0 <= j < picks.len() ==> (#[trigger] picks[j]) < infos.len(),
            same <==> forall|j: int|
                0 <= j < k ==> (#[trigger] infos[picks[j] as int]).path@ == infos[first as int].path@,
        decreases picks.len() - k,
    {
        if !same_bytes(&infos[picks[k]].path, &infos[first].path) {
            same = false;
        }
        k += 1;
    }
    if same {
        Ok(ConnectPlan::SharedPath { index: first })
    } else {
        Ok(ConnectPlan::Separate { indices: picks })
    }
}

/// The second byte of a report descriptor, if it has one.
pub open spec fn second_byte(descriptor: Seq<u8>) -> Option<u8> {
    if descriptor.len() > 1 {
        Some(descriptor[1])
    } else {
        None
    }
}

/// The descriptor is the one of the display endpoint.
pub open spec fn is_oled(descriptor: Seq<u8>) -> bool {
    second_byte(descriptor) == Some(DESCRIPTOR_OLED)
}

/// The descriptor is the one of the event endpoint.
pub open spec fn is_info(descriptor: Seq<u8>) -> bool {
    second_byte(descriptor) == Some(DESCRIPTOR_INFO)
}

/// `i` is the first position at which `flags` holds.
pub open spec fn is_first(flags: Seq<bool>, i: int) -> bool {
    &&& 0 <= i < flags.len()
    &&& flags[i]
    &&& forall|j: int| 0 <= j < i ==> !#[trigger] flags[j]
}

/// Nothing holds anywhere in `flags`.
pub open spec fn none_holds(flags: Seq<bool>) -> bool {
    forall|j: int| 0 <= j < flags.len() ==> !#[trigger] flags[j]
}

/// The order in which the interfaces left after taking out the display
/// endpoint are looked at. Taking out position `oled` moves the last
/// interface into its place; the others stay.
pub open spec fn remaining(count: nat, oled: int) -> Seq<int> {
    Seq::new(
        (count - 1) as nat,
        |k: int|
            if k == oled {
                count - 1
            } else {
                k
            },
    )
}

/// For each interface, whether its descriptor names the display endpoint.
pub open spec fn oled_flags(ds: Seq<Seq<u8>>) -> Seq<bool> {
    Seq::new(ds.len(), |i: int| is_oled(ds[i]))
}

/// For each interface left after taking out the display endpoint at `oled`,
/// in the order of [`remaining`], whether its descriptor names the event
/// endpoint.
pub open spec fn info_flags(ds: Seq<Seq<u8>>, oled: int) -> Seq<bool> {
    Seq::new((ds.len() - 1) as nat, |k: int| is_info(ds[remaining(ds.len(), oled)[k]]))
}

/// For each interface left after taking out the display endpoint at `oled`,
/// in the order of [`remaining`], whether it is something else than a display
/// endpoint.
pub open spec fn other_flags(ds: Seq<Seq<u8>>, oled: int) -> Seq<bool> {
    Seq::new((ds.len() - 1) as nat, |k: int| !is_oled(ds[remaining(ds.len(), oled)[k]]))
}

/// The endpoints chosen among the opened interfaces, by position.
#[derive(Clone, Copy, Debug, PartialEq, Eq, Structural)]
pub struct Endpoints {
    /// The display endpoint.
    pub oled: usize,
    /// The event endpoint, if any interface is left for it.
    pub info: Option<usize>,
    /// The event endpoint was taken for want of one with the known descriptor.
    pub fallback: bool,
}

/// `e` is the right choice for the descriptors `ds`.
///
/// The display endpoint is the first interface whose descriptor names it.
/// Among the others, in the order of [`remaining`], the event endpoint is the
/// first with the known event descriptor; failing that the first that is not
/// a display endpoint; failing that none.
pub open spec fn endpoints_chosen(ds: Seq<Seq<u8>>, e: Endpoints) -> bool {
    let rest = remaining(ds.len(), e.oled as int);
    let infos = info_flags(ds, e.oled as int);
    let others = other_flags(ds, e.oled as int);
    &&& is_first(oled_flags(ds), e.oled as int)
    &&& match e.info {
        Some(i) => exists|k: int|
            0 <= k < rest.len() && #[trigger] rest[k] == i && (if e.fallback {
                none_holds(infos) && is_first(others, k)
            } else {
                is_first(infos, k)
            }),
        None => !e.fallback && none_holds(infos) && none_holds(others),
    }
}

/// The report descriptors as byte sequences.
pub open spec fn descriptor_bytes(descriptors: Seq<Vec<u8>>) -> Seq<Seq<u8>> {
    descriptors.map_values(|d: Vec<u8>| d@)
}

/// Whether the second byte of a descriptor is `byte`.
fn second_byte_is(descriptor: &Vec<u8>, byte: u8) -> (r: bool)
    ensures
        r == (second_byte(descriptor@) == Some(byte)),
{
    descriptor.len() > 1 && descriptor[1] == byte
}

/// Chooses the display endpoint and the event endpoint among the opened
/// interfaces by their report descriptors.
///
/// Fails exactly when no descriptor names the display endpoint.
#[verifier::rlimit(50)]
pub fn select_endpoints(descriptors: &Vec<Vec<u8>>) -> (r: Result<Endpoints, DeviceError>)
    ensures
        match r {
            Ok(e) => endpoints_chosen(descriptor_bytes(descriptors@), e),
            Err(e) => e == DeviceError::NoOledDevice && forall|i: int|
                0 <= i < descriptors.len() ==> !is_oled(#[trigger] descriptors[i]@),
        },
{
    let ghost ds = descriptor_bytes(descriptors@);
    let count = descriptors.len();
    let mut oled: usize = 0;
    while oled < count && !second_byte_is(&descriptors[oled], DESCRIPTOR_OLED)
        invariant
            count == descriptors.len(),
            oled <= count,
            forall|j: int| 0 <= j < oled ==> !is_oled(#[trigger] descriptors[j]@),
        decreases count - oled,
    {
        oled += 1;
    }
    if oled == count {
        return Err(DeviceError::NoOledDevice);
    }
    let ghost rest = remaining(ds.len(), oled as int);
    let ghost infos = info_flags(ds, oled as int);
    let ghost others = other_flags(ds, oled as int);
    assert(is_first(oled_flags(ds), oled as int));
    let last = count - 1;
    let mut k: usize = 0;
    while k < last
        invariant
            count == descriptors.len(),
            last == count - 1,
            oled < count,
            k <= last,
            ds == descriptor_bytes(descriptors@),
            rest == remaining(ds.len(), oled as int),
            infos == info_flags(ds, oled as int),
            is_first(oled_flags(ds), oled as int),
            forall|j: int| 0 <= j < k ==> !#[trigger] infos[j],
        decreases last - k,
    {
        let at = if k == oled {
            last
        } else {
            k
        };
        if second_byte_is(&descriptors[at], DESCRIPTOR_INFO) {
            let chosen = Endpoints { oled, info: Some(at), fallback: false };
            assert(is_first(infos, k as int) && rest[k as int] == at);
            assert(0 <= k < rest.len() && remaining(ds.len(), chosen.oled as int)[k as int] == at);
            assert(endpoints_chosen(ds, chosen));
            return Ok(chosen);
        }
        k += 1;
    }
    let mut k: usize = 0;
    while k < last
        invariant
            count == descriptors.len(),
            last == count - 1,
            oled < count,
            k <= last,
            ds == descriptor_bytes(descriptors@),
            rest == remaining(ds.len(), oled as int),
            infos == info_flags(ds, oled as int),
            others == other_flags(ds, oled as int),
            is_first(oled_flags(ds), oled as int),
            none_holds(infos),
            forall|j: int| 0 <= j < k ==> !#[trigger] others[j],
        decreases last - k,
    {
        let at = if k == oled {
            last
        } else {
            k
        };
        if !second_byte_is(&descriptors[at], DESCRIPTOR_OLED) {
            let chosen = Endpoints { oled, info: Some(at), fallback: true };
            assert(is_first(others, k as int) && rest[k as int] == at);
            assert(0 <= k < rest.len() && remaining(ds.len(), chosen.oled as int)[k as int] == at);
            assert(endpoints_chosen(ds, chosen));
            return Ok(chosen);
        }
        k += 1;
    }
    Ok(Endpoints { oled, info: None, fallback: false })
}

/// The control report with the command byte `command` and, if given, one
/// argument byte: report id, command, argument, then zeros.
pub open spec fn control_report(command: u8, argument: Option<u8>) -> Seq<u8> {
    Seq::new(
        CONTROL_REPORT_SIZE as nat,
        |i: int|
            if i == 0 {
                OUTPUT_REPORT_ID
            } else if i == 1 {
                command
            } else if i == 2 && argument is Some {
                argument->0
            } else {
                0u8
            },
    )
}

/// What to do after a write of a draw report has failed.
#[derive(Clone, Copy, Debug, PartialEq, Eq, Structural)]
pub enum RetryStep {
    /// Sleep for so many milliseconds, then write again.
    Wait { millis: u64 },
    /// Give up and pass the failure on.
    GiveUp,
}

/// The step after the write has failed `failures` times before this failure:
/// after the eleventh failed write the report is given up, before that the
/// wait grows with the square of the number of failed writes.
pub open spec fn retry_step_spec(failures: u64) -> RetryStep {
    if failures >= MAX_SEND_ATTEMPTS - 1 {
        RetryStep::GiveUp
    } else {
        RetryStep::Wait { millis: ((failures + 1) * (failures + 1)) as u64 }
    }
}

/// Decides what follows a failed write of a draw report, given how many
/// writes of that report had failed before it.
pub fn retry_step(failures: u64) -> (r: RetryStep)
    ensures
        r == retry_step_spec(failures),
{
    if failures >= MAX_SEND_ATTEMPTS - 1 {
        RetryStep::GiveUp
    } else {
        let i: u64 = failures + 1;
        assert(i * i <= 100) by (nonlinear_arith)
            requires
                i <= 10,
        ;
        RetryStep::Wait { millis: i * i }
    }
}

/// The host's view of a connected base station: the size of its screen and
/// the state of its event endpoint.
pub struct Device {
    /// The width of the screen in pixels.
    pub width: usize,
    /// The height of the screen in pixels.
    pub height: usize,
    /// Whether an event endpoint was opened beside the display endpoint.
    pub has_info: bool,
    /// The blocking mode that the event endpoint was last switched to.
    pub info_blocking_mode: Option<bool>,
}

impl Device {
    /// The screen is small enough for its rectangles to fit a draw report.
    pub open spec fn wf(&self) -> bool {
        self.height <= MAX_SCREEN_HEIGHT
    }

    /// Whether the screen is small enough for its rectangles to fit a draw
    /// report.
    pub fn is_valid(&self) -> (r: bool)
        ensures
            r == self.wf(),
    {
        self.height <= MAX_SCREEN_HEIGHT
    }

    /// A freshly connected base station with a 128 by 64 screen. `has_info`
    /// says whether an event endpoint was opened beside the display endpoint.
    pub fn new(has_info: bool) -> (r: Device)
        ensures
            r.wf(),
            r.width == DEVICE_WIDTH,
            r.height == DEVICE_HEIGHT,
            r.has_info == has_info,
            r.info_blocking_mode.is_none(),
    {
        Device { width: DEVICE_WIDTH, height: DEVICE_HEIGHT, has_info, info_blocking_mode: None }
    }

    /// The draw reports that show `bitmap` at `(x, y)`, in the order in which
    /// they are to be sent.
    pub fn draw(&self, bitmap: &Bitmap, x: isize, y: isize) -> (reports: Vec<DrawReport>)
        requires
            self.wf(),
            bitmap.wf(),
        ensures
            reports.len() == report_chunks(
                bitmap.w as nat,
                bitmap.h as nat,
                x as int,
                y as int,
                self.width as nat,
                self.height as nat,
            ).len(),
            forall|i: int|
                0 <= i < reports.len() ==> report_encodes(
                    (#[trigger] reports[i])@,
                    bitmap@,
                    report_chunks(
                        bitmap.w as nat,
                        bitmap.h as nat,
                        x as int,
                        y as int,
                        self.width as nat,
                        self.height as nat,
                    )[i],
                ),
    {
        draw_reports(bitmap, x, y, self.width, self.height)
    }

    /// The control report that sets the screen brightness to `value`.
    ///
    /// A brightness below 1 or above 10 is refused.
    pub fn set_brightness(&self, value: u8) -> (r: Result<ControlReport, DeviceError>)
        ensures
            value < BRIGHTNESS_MIN ==> r == Err::<ControlReport, DeviceError>(DeviceError::BrightnessTooLow),
            value > BRIGHTNESS_MAX ==> r == Err::<ControlReport, DeviceError>(DeviceError::BrightnessTooHigh),
            BRIGHTNESS_MIN <= value <= BRIGHTNESS_MAX ==> r is Ok && r->Ok_0@ == control_report(
                COMMAND_BRIGHTNESS,
                Some(value),
            ),
    {
        if value < BRIGHTNESS_MIN {
            return Err(DeviceError::BrightnessTooLow);
        } else if value > BRIGHTNESS_MAX {
            return Err(DeviceError::BrightnessTooHigh);
        }
        let mut report: ControlReport = [0u8;CONTROL_REPORT_SIZE];
        report[0] = OUTPUT_REPORT_ID;
        report[1] = COMMAND_BRIGHTNESS;
        report[2] = value;
        assert(report@ =~= control_report(COMMAND_BRIGHTNESS, Some(value)));
        Ok(report)
    }

    /// The control report that sets the base station volume to `value`, where
    /// 0 is mute and 56 is the loudest. On the wire the volume counts down
    /// from 56.
    ///
    /// A volume above 56 is refused.
    pub fn set_volume(&self, value: u8) -> (r: Result<ControlReport, DeviceError>)
        ensures
            value > BASE_STATION_VOLUME_MAX ==> r == Err::<ControlReport, DeviceError>(
                DeviceError::VolumeTooHigh,
            ),
            value <= BASE_STATION_VOLUME_MAX ==> r is Ok && r->Ok_0@ == control_report(
                COMMAND_VOLUME,
                Some((BASE_STATION_VOLUME_MAX - value) as u8),
            ),
    {
        if value > BASE_STATION_VOLUME_MAX {
            return Err(DeviceError::VolumeTooHigh);
        }
        let mut report: ControlReport = [0u8;CONTROL_REPORT_SIZE];
        report[0] = OUTPUT_REPORT_ID;
        report[1] = COMMAND_VOLUME;
        report[2] = BASE_STATION_VOLUME_MAX.saturating_sub(value);
        assert(report@ =~= control_report(COMMAND_VOLUME, Some((BASE_STATION_VOLUME_MAX - value) as u8)));
        Ok(report)
    }

    /// The control report that hands the screen back to the device's own
    /// interface.
    pub fn return_to_ui(&self) -> (report: ControlReport)
        ensures
            report@ == control_report(COMMAND_RETURN_TO_UI, None),
    {
        let mut report: ControlReport = [0u8;CONTROL_REPORT_SIZE];
        report[0] = OUTPUT_REPORT_ID;
        report[1] = COMMAND_RETURN_TO_UI;
        assert(report@ =~= control_report(COMMAND_RETURN_TO_UI, None));
        report
    }

    /// Whether the event endpoint has to be switched before it is read in the
    /// blocking mode `blocking`: there is such an endpoint, and it was not
    /// last switched to that mode.
    pub fn needs_mode_switch(&self, blocking: bool) -> (r: bool)
        ensures
            r == (self.has_info && self.info_blocking_mode != Some(blocking)),
    {
        self.has_info && match self.info_blocking_mode {
            Some(mode) => mode != blocking,
            None => true,
        }
    }

    /// Records that the event endpoint was switched to the blocking mode
    /// `blocking`. Without an event endpoint nothing is recorded.
    pub fn set_info_blocking_mode(&mut self, blocking: bool)
        ensures
            final(self).width == old(self).width,
            final(self).height == old(self).height,
            final(self).has_info == old(self).has_info,
            final(self).info_blocking_mode == (if old(self).has_info {
                Some(blocking)
            } else {
                old(self).info_blocking_mode
            }),
    {
        if self.has_info {
            self.info_blocking_mode = Some(blocking);
        }
    }
}

} // verus!
