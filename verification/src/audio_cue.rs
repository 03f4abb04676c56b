//! Start / stop cues: which sound to play, decided from the settings. The
//! playback itself (a synthesised tone or a decoded file, on a background
//! thread, failures ignored) is done by the application layer.

use vstd::prelude::*;
use crate::settings::{Settings, SettingValue, as_bool, as_text, lookup};
use crate::text_processor::{trimmed, trim_end_len, trim_start_index, slice_chars};
use crate::unicode::{to_chars, from_chars};

verus! {

#[derive(Debug, Clone, Copy, PartialEq, Eq)]
pub enum CueKind {
    Start,
    Stop,
}

/// What to play for a cue.
#[derive(Debug, Clone, PartialEq, Eq)]
pub enum CueSource {
    /// Sounds are off (`sound_enabled` false or missing).
    Disabled,
    /// The user's sound file.
    CustomFile(String),
    /// A short sine tone: 880 Hz to start, 660 Hz to stop.
    DefaultTone { frequency_hz: u32, duration_ms: u64 },
}

pub const DEFAULT_DURATION_MS: u64 = 120;
pub const START_FREQ_HZ: u32 = 880;
pub const STOP_FREQ_HZ: u32 = 660;

/// The cue for `kind`: nothing unless `sound_enabled` is true; the custom
/// file when `custom_sound_file` holds a path that is not blank (trimmed);
/// otherwise the default tone.
pub open spec fn cue_source(entries: Seq<(String, SettingValue)>, kind: CueKind) -> CueSourceSpec {
    if as_bool(lookup(entries, "sound_enabled"@)) != Some(true) {
        CueSourceSpec::Disabled
    } else {
        match as_text(lookup(entries, "custom_sound_file"@)) {
            Some(p) if trimmed(p).len() > 0 => CueSourceSpec::CustomFile(trimmed(p)),
            _ => CueSourceSpec::DefaultTone {
                frequency_hz: match kind {
                    CueKind::Start => 880,
                    CueKind::Stop => 660,
                },
                duration_ms: 120,
            },
        }
    }
}

/// A cue source with its path as characters.
pub enum CueSourceSpec {
    Disabled,
    CustomFile(Seq<char>),
    DefaultTone { frequency_hz: u32, duration_ms: u64 },
}

pub open spec fn source_view(s: CueSource) -> CueSourceSpec {
    match s {
        CueSource::Disabled => CueSourceSpec::Disabled,
        CueSource::CustomFile(p) => CueSourceSpec::CustomFile(p@),
        CueSource::DefaultTone { frequency_hz, duration_ms } => CueSourceSpec::DefaultTone { frequency_hz, duration_ms },
    }
}

/// `s` with leading and trailing whitespace removed.
pub fn trim(s: &str) -> (r: String)
    ensures
        r@ == trimmed(s@),
{
    let chars = to_chars(s);
    let j = trim_start_index(&chars);
    let rest = slice_chars(&chars, j, chars.len());
    assert(rest@ == chars@.skip(j as int));
    let k = trim_end_len(&rest);
    from_chars(&slice_chars(&rest, 0, k))
}

/// Decides what to play for `kind` given the settings.
pub fn resolve_cue_source(settings: &Settings, kind: CueKind) -> (r: CueSource)
    ensures
        source_view(r) == cue_source(settings.entries@, kind),
{
    let enabled = match settings.get_bool("sound_enabled") {
        Some(b) => b,
        None => false,
    };
    if !enabled {
        return CueSource::Disabled;
    }
    match settings.get_str("custom_sound_file") {
        Some(p) => {
            let t = trim(p);
            if t.unicode_len() > 0 {
                return CueSource::CustomFile(t);
            }
        },
        None => {},
    }
    let frequency_hz = match kind {
        CueKind::Start => START_FREQ_HZ,
        CueKind::Stop => STOP_FREQ_HZ,
    };
    CueSource::DefaultTone { frequency_hz, duration_ms: DEFAULT_DURATION_MS }
}

/// Start and stop cues are told apart by ear: their default tones differ.
pub proof fn law_cue_tones_differ(entries: Seq<(String, SettingValue)>)
    ensures
        cue_source(entries, CueKind::Start) matches CueSourceSpec::DefaultTone { frequency_hz: a, .. }
            ==> cue_source(entries, CueKind::Stop) matches CueSourceSpec::DefaultTone { frequency_hz: b, .. } && a != b,
{
}

} // verus!
