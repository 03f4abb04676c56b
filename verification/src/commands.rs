//! Decisions behind the front-end commands: which device to record from,
//! whether a model must be loaded, how daemon replies are read, and the
//! records handed to the front end. The commands themselves (global state,
//! locks, the daemon, the database) are run by the application layer.

use vstd::prelude::*;
use crate::platform::types::AudioInputDevice;
use crate::pipeline::PipelineState;
use crate::settings::{Settings, SettingValue, as_text, as_u64, lookup};
use crate::state::{default_device, device_choice, has_device, contains_device, find_default_device};
use crate::unicode::{concat, owned, push_str_chars_string, same_text};

verus! {

/// An audio device as the front end receives it.
#[derive(Debug, Clone)]
pub struct NapiAudioDevice {
    pub id: u32,
    pub name: String,
    pub is_default: bool,
}

/// The daemon's state as the front end receives it.
#[derive(Debug, Clone)]
pub struct NapiDaemonStatus {
    pub running: bool,
    pub loaded_model: Option<String>,
}

/// The devices as the front end receives them, in the same order.
pub fn to_napi_devices(devices: &Vec<AudioInputDevice>) -> (r: Vec<NapiAudioDevice>)
    ensures
        r.len() == devices.len(),
        forall|i: int| 0 <= i < r.len() ==> (#[trigger] r[i]).id == devices[i].id
            && r[i].name@ == devices[i].name@ && r[i].is_default == devices[i].is_default,
{
    let mut out: Vec<NapiAudioDevice> = Vec::new();
    let mut i: usize = 0;
    while i < devices.len()
        invariant
            i <= devices.len(),
            out.len() == i,
            forall|k: int| 0 <= k < i ==> (#[trigger] out[k]).id == devices[k].id
                && out[k].name@ == devices[k].name@ && out[k].is_default == devices[k].is_default,
        decreases devices.len() - i,
    {
        let d = &devices[i];
        out.push(NapiAudioDevice { id: d.id, name: owned(d.name.as_str()), is_default: d.is_default });
        i += 1;
    }
    out
}

/// A recording may only start from Idle.
pub fn can_start_recording(state: PipelineState) -> (r: bool)
    ensures
        r == (state == PipelineState::Idle),
{
    state == PipelineState::Idle
}

/// The device a new recording uses: the one asked for; else the saved
/// `audio_device` when still present; else the default device; else the
/// first device. `None` when there are no devices at all.
pub open spec fn recording_device_choice(
    requested: Option<u32>,
    entries: Seq<(String, SettingValue)>,
    devices: Seq<AudioInputDevice>,
) -> Option<u32> {
    if devices.len() == 0 {
        None
    } else {
        match requested {
            Some(id) => Some(id),
            None => match as_u64(lookup(entries, "audio_device"@)) {
                Some(v) if has_device(devices, v as u32) => Some(v as u32),
                _ => match default_device(devices) {
                    Some(id) => Some(id),
                    None => Some(devices[0].id),
                },
            },
        }
    }
}

/// Chooses the device for a new recording.
pub fn recording_device(requested: Option<u32>, settings: &Settings, devices: &Vec<AudioInputDevice>) -> (r: Option<u32>)
    ensures
        r == recording_device_choice(requested, settings.entries@, devices@),
{
    if devices.len() == 0 {
        return None;
    }
    match requested {
        Some(id) => Some(id),
        None => {
            match settings.get_u64("audio_device") {
                Some(v) => {
                    let id = v as u32;
                    if contains_device(devices, id) {
                        return Some(id);
                    }
                },
                None => {},
            }
            match find_default_device(devices) {
                Some(id) => Some(id),
                None => Some(devices[0].id),
            }
        },
    }
}

/// A recording started without a requested device uses the device that is
/// prepared in the background for the next recording, whenever a saved
/// device is still present or some device is marked default (with neither,
/// the recording takes the first device and nothing is prepared).
pub proof fn law_start_device_is_prepared_device(
    entries: Seq<(String, SettingValue)>,
    devices: Seq<AudioInputDevice>,
)
    requires
        devices.len() > 0,
        (as_u64(lookup(entries, "audio_device"@)) matches Some(v) && has_device(devices, v as u32))
            || default_device(devices) is Some,
    ensures
        recording_device_choice(None, entries, devices) == Some(device_choice(entries, devices)),
{
}

/// A model has to be loaded when it has a repository and that is not the
/// one the daemon holds.
pub fn needs_model_load(model_repo: &Option<String>, loaded: &Option<String>) -> (r: bool)
    ensures
        r == (match (model_repo, loaded) {
            (Some(m), Some(l)) => m@ != l@,
            (Some(_), None) => true,
            (None, _) => false,
        }),
{
    match (model_repo, loaded) {
        (Some(m), Some(l)) => !same_text(m.as_str(), l.as_str()),
        (Some(_), None) => true,
        (None, _) => false,
    }
}

/// The message for a failed load: the daemon's error, or the status.
pub fn load_failure_message(error: Option<String>, status: &str) -> (r: String)
    ensures
        r@ == (match error {
            Some(e) => e@,
            None => "load failed: "@ + status@,
        }),
{
    match error {
        Some(e) => e,
        None => concat("load failed: ", status),
    }
}

/// The outcome of a transcription reply: its text (empty when it carries
/// none) for status `success`, else its error or a stock message.
pub fn transcription_outcome(status: &str, text: Option<String>, error: Option<String>) -> (r: Result<String, String>)
    ensures
        status@ == "success"@ ==> (r matches Ok(t) && t@ == (match text {
            Some(x) => x@,
            None => Seq::<char>::empty(),
        })),
        status@ != "success"@ ==> (r matches Err(m) && m@ == (match error {
            Some(e) => e@,
            None => "Transcription failed"@,
        })),
{
    if same_text(status, "success") {
        match text {
            Some(t) => Ok(t),
            None => Ok(String::new()),
        }
    } else {
        match error {
            Some(e) => Err(e),
            None => Err(owned("Transcription failed")),
        }
    }
}

/// The settings key of a per-model option: `model_<id>_<option>`.
pub fn model_setting_key(model_id: &str, option: &str) -> (r: String)
    ensures
        r@ == "model_"@ + model_id@ + "_"@ + option@,
{
    let mut k = concat("model_", model_id);
    push_str_chars_string(&mut k, "_");
    push_str_chars_string(&mut k, option);
    k
}

/// The token limit for a transcription: the model's setting (truncated to
/// 32 bits), 1900 by default.
pub fn max_tokens(setting: Option<u64>) -> (r: u32)
    ensures
        r == (match setting {
            Some(v) => v as u32,
            None => 1900u32,
        }),
{
    match setting {
        Some(v) => v as u32,
        None => 1900,
    }
}

/// What a transcription is asked for: the model, the language and the
/// token limit.
#[derive(Debug, Clone)]
pub struct TranscriptionSettings {
    pub model_id: String,
    pub language: String,
    pub max_tokens: u32,
}

/// The text stored under `key`, or `default` when there is no text there.
pub open spec fn text_or(entries: Seq<(String, SettingValue)>, key: Seq<char>, default: Seq<char>) -> Seq<char> {
    match as_text(lookup(entries, key)) {
        Some(t) => t,
        None => default,
    }
}

/// The model (`selected_model_id`, by default `ggml-base.en`), the language
/// (`language`, by default `en`) and the token limit
/// (`model_<model>_max_tokens` truncated to 32 bits, by default 1900).
pub open spec fn transcription_choice(entries: Seq<(String, SettingValue)>) -> (Seq<char>, Seq<char>, u32) {
    let model = text_or(entries, "selected_model_id"@, "ggml-base.en"@);
    let language = text_or(entries, "language"@, "en"@);
    let tokens = match as_u64(lookup(entries, "model_"@ + model + "_max_tokens"@)) {
        Some(v) => v as u32,
        None => 1900u32,
    };
    (model, language, tokens)
}

fn text_setting_or(settings: &Settings, key: &str, default: &str) -> (r: String)
    ensures
        r@ == text_or(settings.entries@, key@, default@),
{
    match settings.get_str(key) {
        Some(t) => owned(t),
        None => owned(default),
    }
}

/// Reads what a transcription is asked for from the settings.
pub fn transcription_settings(settings: &Settings) -> (r: TranscriptionSettings)
    ensures
        (r.model_id@, r.language@, r.max_tokens) == transcription_choice(settings.entries@),
{
    let model_id = text_setting_or(settings, "selected_model_id", "ggml-base.en");
    let language = text_setting_or(settings, "language", "en");
    let key = model_setting_key(model_id.as_str(), "max_tokens");
    proof {
        reveal_strlit("_");
        reveal_strlit("max_tokens");
        reveal_strlit("_max_tokens");
        assert("model_"@ + model_id@ + "_"@ + "max_tokens"@ =~= "model_"@ + model_id@ + "_max_tokens"@);
    }
    let tokens = max_tokens(settings.get_u64(key.as_str()));
    TranscriptionSettings { model_id, language, max_tokens: tokens }
}

/// The permissions the front end can ask to have opened.
#[derive(Debug, Clone, Copy, PartialEq, Eq)]
pub enum PermissionRequest {
    Microphone,
    Accessibility,
}

/// The permission named by the front end: `microphone` or
/// `accessibility`; anything else is ignored.
pub fn permission_request(kind: &str) -> (r: Option<PermissionRequest>)
    ensures
        kind@ == "microphone"@ ==> r == Some(PermissionRequest::Microphone),
        kind@ == "accessibility"@ ==> r == Some(PermissionRequest::Accessibility),
        kind@ != "microphone"@ && kind@ != "accessibility"@ ==> r is None,
{
    proof {
        reveal_strlit("microphone");
        reveal_strlit("accessibility");
        assert("microphone"@.len() != "accessibility"@.len());
    }
    if same_text(kind, "microphone") {
        Some(PermissionRequest::Microphone)
    } else if same_text(kind, "accessibility") {
        Some(PermissionRequest::Accessibility)
    } else {
        None
    }
}

} // verus!
