//! Application paths and the device choice made from the cached settings
//! and device list. The shared context (database connection, locks, caches)
//! lives in the application layer.

use vstd::prelude::*;
use crate::platform::types::AudioInputDevice;
use crate::settings::{Settings, SettingValue, as_u64, as_text, lookup};
use crate::unicode::{concat, owned, to_chars};

verus! {

/// `name` joined onto `base` as `Path::join` does on Unix: an absolute
/// `name` replaces `base`; otherwise a `/` separates them unless `base` is
/// empty or already ends with one.
pub open spec fn path_join(base: Seq<char>, name: Seq<char>) -> Seq<char> {
    if name.len() > 0 && name[0] == '/' {
        name
    } else if base.len() == 0 {
        name
    } else if base.last() == '/' {
        base + name
    } else {
        base + seq!['/'] + name
    }
}

/// Joins `name` onto `base`.
pub fn join_path(base: &str, name: &str) -> (r: String)
    ensures
        r@ == path_join(base@, name@),
{
    let b = to_chars(base);
    let n = to_chars(name);
    if n.len() > 0 && n[0] == '/' {
        owned(name)
    } else if b.len() == 0 {
        owned(name)
    } else if b[b.len() - 1] == '/' {
        concat(base, name)
    } else {
        let mut r = concat(base, "/");
        crate::unicode::push_str_chars_string(&mut r, name);
        proof { reveal_strlit("/"); }
        r
    }
}

/// Calls `dirs::home_dir`, the user's home directory as the environment
/// gives it, converted to text (lossily); `None` when it cannot be found.
#[verifier::external_body]
fn home_dir() -> (r: Option<String>) {
    match dirs::home_dir() {
        Some(p) => Some(p.to_string_lossy().into_owned()),
        None => None,
    }
}

/// All configurable paths. Each can be overridden by the setting
/// `path_<name>`.
#[derive(Debug, Clone)]
pub struct AppPaths {
    /// Root data dir (database, logs, daemon script).
    pub data_dir: String,
    /// Whisper model files.
    pub models_dir: String,
    /// Sprite sheet assets.
    pub sprites_dir: String,
    /// Saved recording WAV files.
    pub recordings_dir: String,
}

/// The paths for a given home directory and settings: `path_data`, else
/// `<home>/.voiceink`; each of `path_models`, `path_sprites`,
/// `path_recordings`, else that directory under the data dir.
pub open spec fn paths_for(entries: Seq<(String, SettingValue)>, home: Seq<char>) -> (Seq<char>, Seq<char>, Seq<char>, Seq<char>) {
    let data = match as_text(lookup(entries, "path_data"@)) {
        Some(p) => p,
        None => path_join(home, ".voiceink"@),
    };
    let models = match as_text(lookup(entries, "path_models"@)) {
        Some(p) => p,
        None => path_join(data, "models"@),
    };
    let sprites = match as_text(lookup(entries, "path_sprites"@)) {
        Some(p) => p,
        None => path_join(data, "sprites"@),
    };
    let recordings = match as_text(lookup(entries, "path_recordings"@)) {
        Some(p) => p,
        None => path_join(data, "recordings"@),
    };
    (data, models, sprites, recordings)
}

pub open spec fn paths_view(p: AppPaths) -> (Seq<char>, Seq<char>, Seq<char>, Seq<char>) {
    (p.data_dir@, p.models_dir@, p.sprites_dir@, p.recordings_dir@)
}

fn setting_or_join(settings: &Settings, key: &str, base: &str, name: &str) -> (r: String)
    ensures
        r@ == (match as_text(lookup(settings.entries@, key@)) {
            Some(p) => p,
            None => path_join(base@, name@),
        }),
{
    match settings.get_str(key) {
        Some(p) => owned(p),
        None => join_path(base, name),
    }
}

impl AppPaths {
    /// The paths for the settings, relative to `home`.
    pub fn from_settings_with_home(settings: &Settings, home: &str) -> (p: Self)
        ensures
            paths_view(p) == paths_for(settings.entries@, home@),
    {
        let data_dir = setting_or_join(settings, "path_data", home, ".voiceink");
        let models_dir = setting_or_join(settings, "path_models", data_dir.as_str(), "models");
        let sprites_dir = setting_or_join(settings, "path_sprites", data_dir.as_str(), "sprites");
        let recordings_dir = setting_or_join(settings, "path_recordings", data_dir.as_str(), "recordings");
        AppPaths { data_dir, models_dir, sprites_dir, recordings_dir }
    }

    /// The paths for the settings, relative to the user's home directory
    /// (empty when it cannot be found).
    pub fn from_settings(settings: &Settings) -> (p: Self)
        ensures
            exists|home: Seq<char>| paths_view(p) == paths_for(settings.entries@, home),
    {
        let home = match home_dir() {
            Some(h) => h,
            None => String::new(),
        };
        Self::from_settings_with_home(settings, home.as_str())
    }

    /// The default paths under `home`.
    pub fn defaults_with_home(home: &str) -> (p: Self)
        ensures
            paths_view(p) == paths_for(Seq::empty(), home@),
    {
        let empty = Settings { entries: Vec::new() };
        Self::from_settings_with_home(&empty, home)
    }

    /// The default paths, before any settings exist.
    pub fn defaults() -> (p: Self)
        ensures
            exists|home: Seq<char>| paths_view(p) == paths_for(Seq::empty(), home),
    {
        let home = match home_dir() {
            Some(h) => h,
            None => String::new(),
        };
        Self::defaults_with_home(home.as_str())
    }
}

/// Whether some device has the id.
pub open spec fn has_device(devices: Seq<AudioInputDevice>, id: u32) -> bool {
    exists|i: int| 0 <= i < devices.len() && devices[i].id == id
}

/// The id of the first device marked default.
pub open spec fn default_device(devices: Seq<AudioInputDevice>) -> Option<u32>
    decreases devices.len(),
{
    if devices.len() == 0 {
        None
    } else if devices[0].is_default {
        Some(devices[0].id)
    } else {
        default_device(devices.skip(1))
    }
}

/// The device to record from: the saved `audio_device` (truncated to 32
/// bits) when it is still present, else the default device, else 0.
pub open spec fn device_choice(entries: Seq<(String, SettingValue)>, devices: Seq<AudioInputDevice>) -> u32 {
    match as_u64(lookup(entries, "audio_device"@)) {
        Some(v) if has_device(devices, v as u32) => v as u32,
        _ => match default_device(devices) {
            Some(id) => id,
            None => 0,
        },
    }
}

/// Whether a device with `id` is in the list.
pub fn contains_device(devices: &Vec<AudioInputDevice>, id: u32) -> (r: bool)
    ensures
        r == has_device(devices@, id),
{
    let mut i: usize = 0;
    while i < devices.len()
        invariant
            i <= devices.len(),
            forall|k: int| 0 <= k < i ==> devices@[k].id != id,
        decreases devices.len() - i,
    {
        if devices[i].id == id {
            return true;
        }
        i += 1;
    }
    false
}

/// The id of the first device marked default.
pub fn find_default_device(devices: &Vec<AudioInputDevice>) -> (r: Option<u32>)
    ensures
        r == default_device(devices@),
{
    let mut j: usize = 0;
    assert(devices@.skip(0) == devices@);
    while j < devices.len()
        invariant
            j <= devices.len(),
            default_device(devices@) == default_device(devices@.skip(j as int)),
        decreases devices.len() - j,
    {
        assert(devices@.skip(j as int)[0] == devices@[j as int]);
        if devices[j].is_default {
            return Some(devices[j].id);
        }
        assert(devices@.skip(j as int).skip(1) == devices@.skip(j + 1));
        j += 1;
    }
    None
}

/// Resolves the audio device to record from (0 when there is none).
/// Priority: saved `audio_device` setting > default device > 0.
pub fn resolve_device_id(settings: &Settings, devices: &Vec<AudioInputDevice>) -> (r: u32)
    ensures
        r == device_choice(settings.entries@, devices@),
{
    match settings.get_u64("audio_device") {
        Some(v) => {
            let id = v as u32;
            if contains_device(devices, id) {
                return id;
            }
        },
        None => {},
    }
    match find_default_device(devices) {
        Some(id) => id,
        None => 0,
    }
}

} // verus!
