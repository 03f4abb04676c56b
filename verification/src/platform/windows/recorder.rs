//! Windows recording through WASAPI (cpal). The device and stream calls are
//! made by the application layer; this module holds the decisions: how
//! devices are numbered and named, which device an id selects, and which
//! capture format to ask for.

use vstd::prelude::*;
use crate::error::{AppError, AppResult};
use crate::platform::types::AudioInputDevice;
use crate::text_processor::cn_numerals::{decimal, push_decimal};
use crate::unicode::{from_chars, push_str_chars_string, same_text, to_chars, concat, owned};

verus! {

pub struct WindowsRecorder;

/// The capture format that needs no conversion: 16 kHz mono.
pub const TARGET_SAMPLE_RATE: u32 = 16000;

/// The name under which device number `idx` is listed: its reported name,
/// or `Device <idx>` when it reports none.
pub open spec fn listed_name(idx: nat, reported: Option<Seq<char>>) -> Seq<char> {
    match reported {
        Some(n) => n,
        None => "Device "@ + decimal(idx),
    }
}

/// The device list: devices numbered from 1 in enumeration order (0 names
/// no device); the default is the one whose name equals the default
/// device's name.
pub open spec fn listed_device_ok(
    d: AudioInputDevice,
    idx: int,
    reported: Option<String>,
    default_name: Seq<char>,
) -> bool {
    let r = match reported {
        Some(n) => Some(n@),
        None => None,
    };
    &&& d.id == idx + 1
    &&& d.name@ == listed_name(idx as nat, r)
    &&& d.is_default == (d.name@ == default_name)
}

/// Builds the device list from the names the devices reported (`None` for
/// a device whose name could not be read) and the default device's name.
pub fn device_list(reported: Vec<Option<String>>, default_name: &str) -> (r: Vec<AudioInputDevice>)
    requires
        reported.len() < u32::MAX,
    ensures
        r.len() == reported.len(),
        forall|i: int| 0 <= i < r.len() ==> listed_device_ok(#[trigger] r[i], i, reported[i], default_name@),
{
    let mut out: Vec<AudioInputDevice> = Vec::new();
    let mut i: usize = 0;
    while i < reported.len()
        invariant
            i <= reported.len(),
            out.len() == i,
            reported.len() < u32::MAX,
            forall|k: int| 0 <= k < i ==> listed_device_ok(#[trigger] out[k], k, reported[k], default_name@),
        decreases reported.len() - i,
    {
        let name = match &reported[i] {
            Some(n) => owned(n.as_str()),
            None => {
                let mut v: Vec<char> = to_chars("Device ");
                push_decimal(&mut v, i as u64);
                from_chars(&v)
            },
        };
        let is_default = same_text(name.as_str(), default_name);
        out.push(AudioInputDevice { id: (i + 1) as u32, name, is_default });
        i += 1;
    }
    out
}

/// The error for a failed device enumeration.
pub fn enumeration_failed(detail: &str) -> (e: AppError)
    ensures
        e matches AppError::Recording(m) && m@ == "Failed to enumerate input devices: "@ + detail@,
{
    AppError::Recording(concat("Failed to enumerate input devices: ", detail))
}

/// The position of the device that `device_id` names among `count`
/// enumerated devices: ids count from 1, so id 0 names none.
pub fn device_index(device_id: u32, count: usize) -> (r: AppResult<usize>)
    ensures
        1 <= device_id <= count ==> r == Ok::<usize, AppError>((device_id - 1) as usize),
        !(1 <= device_id <= count) ==> (r matches Err(AppError::Recording(m))
            && m@ == "Input device "@ + decimal(device_id as nat) + " not found"@),
{
    if device_id >= 1 && ((device_id - 1) as usize) < count {
        Ok((device_id - 1) as usize)
    } else {
        let mut v: Vec<char> = to_chars("Input device ");
        push_decimal(&mut v, device_id as u64);
        let mut m = from_chars(&v);
        push_str_chars_string(&mut m, " not found");
        Err(AppError::Recording(m))
    }
}

/// One supported input configuration range: channels, lowest and highest
/// sample rate.
pub open spec fn range_has_16k_mono(r: (u16, u32, u32)) -> bool {
    r.0 == 1 && r.1 <= 16000 && r.2 >= 16000
}

/// Whether some supported configuration records 16 kHz mono.
pub fn supports_16k_mono(ranges: &Vec<(u16, u32, u32)>) -> (r: bool)
    ensures
        r == exists|i: int| 0 <= i < ranges.len() && range_has_16k_mono(#[trigger] ranges[i]),
{
    let mut i: usize = 0;
    while i < ranges.len()
        invariant
            i <= ranges.len(),
            forall|k: int| 0 <= k < i ==> !range_has_16k_mono(#[trigger] ranges[k]),
        decreases ranges.len() - i,
    {
        let (ch, lo, hi) = ranges[i];
        if ch == 1 && lo <= 16000 && hi >= 16000 {
            assert(range_has_16k_mono(ranges[i as int]));
            return true;
        }
        i += 1;
    }
    false
}

/// What the device reported about its capture formats.
pub enum FormatSupport {
    /// The supported configurations could not be queried.
    Unknown,
    /// The device supports 16 kHz mono.
    Mono16k,
    /// It does not; its default configuration (sample rate, channels), or
    /// why that could not be read.
    DeviceDefault(Result<(u32, u16), String>),
}

/// The capture format (sample rate, channels) to open the stream with:
/// 16 kHz mono when supported or when support is unknown, else the device's
/// default (resampled later).
pub fn capture_format(support: FormatSupport) -> (r: AppResult<(u32, u16)>)
    ensures
        support is Unknown ==> r == Ok::<(u32, u16), AppError>((16000u32, 1u16)),
        support is Mono16k ==> r == Ok::<(u32, u16), AppError>((16000u32, 1u16)),
        support matches FormatSupport::DeviceDefault(Ok(f)) ==> r == Ok::<(u32, u16), AppError>(f),
        support matches FormatSupport::DeviceDefault(Err(d)) ==> (r matches Err(AppError::Recording(m))
            && m@ == "No supported input config: "@ + d@),
{
    match support {
        FormatSupport::Unknown => Ok((16000, 1)),
        FormatSupport::Mono16k => Ok((16000, 1)),
        FormatSupport::DeviceDefault(Ok(f)) => Ok(f),
        FormatSupport::DeviceDefault(Err(d)) => Err(AppError::Recording(concat("No supported input config: ", d.as_str()))),
    }
}

} // verus!
