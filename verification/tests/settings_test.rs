use std::path::PathBuf;
use yumo_core::audio_cue::{resolve_cue_source, CueKind, CueSource};
use yumo_core::settings::{self, SettingValue, Settings};
use yumo_core::state::AppPaths;

fn make(pairs: Vec<(&str, SettingValue)>) -> Settings {
    Settings { entries: pairs.into_iter().map(|(k, v)| (k.to_string(), v)).collect() }
}

/// A JSON integer such as `800`.
fn whole_number(v: u64) -> SettingValue {
    SettingValue::Number { as_u64: Some(v), whole: v }
}

fn text(s: &str) -> SettingValue {
    SettingValue::Str(s.to_string())
}

// resolve_paste_restore_delay_ms

#[test]
fn restore_delay_reads_paste_delay_key() {
    let settings = make(vec![("paste_delay", whole_number(800))]);
    assert_eq!(settings::resolve_paste_restore_delay_ms(&settings), 800);
}

#[test]
fn restore_delay_accepts_float() {
    // JSON `250.0`: not an integer, but a number worth 250.
    let settings = make(vec![("paste_delay", SettingValue::Number { as_u64: None, whole: 250 })]);
    assert_eq!(settings::resolve_paste_restore_delay_ms(&settings), 250);
}

#[test]
fn restore_delay_forced_zero_when_clipboard_restore_false() {
    let settings = make(vec![
        ("paste_delay", whole_number(2000)),
        ("clipboard_restore", SettingValue::Bool(false)),
    ]);
    assert_eq!(settings::resolve_paste_restore_delay_ms(&settings), 0);
}

#[test]
fn restore_delay_clipboard_restore_true_passes_through() {
    let settings = make(vec![
        ("paste_delay", whole_number(500)),
        ("clipboard_restore", SettingValue::Bool(true)),
    ]);
    assert_eq!(settings::resolve_paste_restore_delay_ms(&settings), 500);
}

#[test]
fn restore_delay_clipboard_restore_missing_defaults_to_enabled() {
    let settings = make(vec![("paste_delay", whole_number(500))]);
    assert_eq!(settings::resolve_paste_restore_delay_ms(&settings), 500);
}

// resolve_system_mute

#[test]
fn system_mute_default_false() {
    let settings = make(vec![]);
    assert!(!settings::resolve_system_mute(&settings));
}

#[test]
fn system_mute_reads_ui_key() {
    let settings = make(vec![("system_mute", SettingValue::Bool(true))]);
    assert!(settings::resolve_system_mute(&settings));
}

#[test]
fn system_mute_explicit_false() {
    let settings = make(vec![("system_mute", SettingValue::Bool(false))]);
    assert!(!settings::resolve_system_mute(&settings));
}

#[test]
fn system_mute_ignores_legacy_dead_key() {
    let settings = make(vec![("system_mute_enabled", SettingValue::Bool(true))]);
    assert!(!settings::resolve_system_mute(&settings));
}

// resolve_cue_source

#[test]
fn cue_disabled_when_sound_enabled_false() {
    let s = make(vec![("sound_enabled", SettingValue::Bool(false))]);
    assert!(matches!(resolve_cue_source(&s, CueKind::Start), CueSource::Disabled));
    assert!(matches!(resolve_cue_source(&s, CueKind::Stop), CueSource::Disabled));
}

#[test]
fn cue_disabled_by_default_when_setting_missing() {
    let s = make(vec![]);
    assert!(matches!(resolve_cue_source(&s, CueKind::Start), CueSource::Disabled));
}

#[test]
fn cue_default_tone_when_enabled_no_custom_file() {
    let s = make(vec![("sound_enabled", SettingValue::Bool(true))]);
    match resolve_cue_source(&s, CueKind::Start) {
        CueSource::DefaultTone { frequency_hz, .. } => {
            assert!(frequency_hz > 0, "start tone freq must be positive");
        }
        other => panic!("expected DefaultTone, got {:?}", other),
    }
}

#[test]
fn cue_start_and_stop_use_different_frequencies() {
    let s = make(vec![("sound_enabled", SettingValue::Bool(true))]);
    let start = match resolve_cue_source(&s, CueKind::Start) {
        CueSource::DefaultTone { frequency_hz, .. } => frequency_hz,
        _ => unreachable!(),
    };
    let stop = match resolve_cue_source(&s, CueKind::Stop) {
        CueSource::DefaultTone { frequency_hz, .. } => frequency_hz,
        _ => unreachable!(),
    };
    assert_ne!(start, stop, "start / stop frequencies must differ");
}

#[test]
fn cue_custom_file_when_enabled_and_path_set() {
    let s = make(vec![
        ("sound_enabled", SettingValue::Bool(true)),
        ("custom_sound_file", text("/tmp/my-beep.wav")),
    ]);
    match resolve_cue_source(&s, CueKind::Start) {
        CueSource::CustomFile(p) => {
            assert_eq!(p, "/tmp/my-beep.wav");
        }
        other => panic!("expected CustomFile, got {:?}", other),
    }
}

#[test]
fn cue_empty_custom_file_falls_back_to_default_tone() {
    let s = make(vec![
        ("sound_enabled", SettingValue::Bool(true)),
        ("custom_sound_file", text("")),
    ]);
    assert!(matches!(resolve_cue_source(&s, CueKind::Start), CueSource::DefaultTone { .. }));
}

#[test]
fn cue_whitespace_custom_file_falls_back_to_default() {
    let s = make(vec![
        ("sound_enabled", SettingValue::Bool(true)),
        ("custom_sound_file", text("   ")),
    ]);
    assert!(matches!(resolve_cue_source(&s, CueKind::Start), CueSource::DefaultTone { .. }));
}

// AppPaths

fn path(s: &str) -> PathBuf {
    PathBuf::from(s)
}

#[test]
fn test_app_paths_defaults() {
    let paths = AppPaths::defaults();
    let home = dirs::home_dir().unwrap();
    let vi = home.join(".voiceink");

    assert_eq!(path(&paths.data_dir), vi);
    assert_eq!(path(&paths.models_dir), vi.join("models"));
    assert_eq!(path(&paths.sprites_dir), vi.join("sprites"));
}

#[test]
fn test_app_paths_from_empty_settings() {
    let settings = make(vec![]);
    let paths = AppPaths::from_settings(&settings);
    let defaults = AppPaths::defaults();

    assert_eq!(paths.data_dir, defaults.data_dir);
    assert_eq!(paths.models_dir, defaults.models_dir);
    assert_eq!(paths.sprites_dir, defaults.sprites_dir);
}

#[test]
fn test_app_paths_override_data_dir() {
    let settings = make(vec![("path_data", text("/tmp/voiceink-test"))]);

    let paths = AppPaths::from_settings(&settings);
    let base = PathBuf::from("/tmp/voiceink-test");

    assert_eq!(path(&paths.data_dir), base);
    assert_eq!(path(&paths.models_dir), base.join("models"));
}

#[test]
fn test_app_paths_override_models_dir() {
    let settings = make(vec![("path_models", text("/opt/models"))]);

    let paths = AppPaths::from_settings(&settings);

    let home = dirs::home_dir().unwrap();
    assert_eq!(path(&paths.data_dir), home.join(".voiceink"));
    assert_eq!(path(&paths.models_dir), PathBuf::from("/opt/models"));
}

#[test]
fn test_app_paths_override_sprites_dir() {
    let settings = make(vec![("path_sprites", text("/my/sprites"))]);

    let paths = AppPaths::from_settings(&settings);
    assert_eq!(path(&paths.sprites_dir), PathBuf::from("/my/sprites"));
}

#[test]
fn test_app_paths_override_all() {
    let settings = make(vec![
        ("path_data", text("/a")),
        ("path_models", text("/b")),
        ("path_sprites", text("/c")),
    ]);

    let paths = AppPaths::from_settings(&settings);

    assert_eq!(path(&paths.data_dir), PathBuf::from("/a"));
    assert_eq!(path(&paths.models_dir), PathBuf::from("/b"));
    assert_eq!(path(&paths.sprites_dir), PathBuf::from("/c"));
}

#[test]
fn test_app_paths_ignores_non_string_values() {
    let settings = make(vec![
        ("path_data", whole_number(42)),
        ("path_sprites", SettingValue::Bool(true)),
    ]);

    let paths = AppPaths::from_settings(&settings);
    let defaults = AppPaths::defaults();

    assert_eq!(paths.data_dir, defaults.data_dir);
    assert_eq!(paths.sprites_dir, defaults.sprites_dir);
}

// transcription_settings

#[test]
fn transcription_defaults_without_settings() {
    let t = yumo_core::commands::transcription_settings(&make(vec![]));
    assert_eq!(t.model_id, "ggml-base.en");
    assert_eq!(t.language, "en");
    assert_eq!(t.max_tokens, 1900);
}

#[test]
fn transcription_reads_model_language_and_model_token_limit() {
    let s = make(vec![
        ("selected_model_id", text("mlx-funasr")),
        ("language", text("zh")),
        ("model_mlx-funasr_max_tokens", whole_number(512)),
        ("model_ggml-base.en_max_tokens", whole_number(64)),
    ]);
    let t = yumo_core::commands::transcription_settings(&s);
    assert_eq!(t.model_id, "mlx-funasr");
    assert_eq!(t.language, "zh");
    assert_eq!(t.max_tokens, 512);
}

// the device a recording starts from and the device prepared in advance

fn device(id: u32, is_default: bool) -> yumo_core::platform::AudioInputDevice {
    yumo_core::platform::AudioInputDevice { id, name: format!("mic {id}"), is_default }
}

#[test]
fn start_device_is_prepared_device() {
    let devices = vec![device(3, false), device(5, true)];
    let none = make(vec![]);
    let saved = make(vec![("audio_device", whole_number(3))]);
    for s in [&none, &saved] {
        let prepared = yumo_core::state::resolve_device_id(s, &devices);
        assert_eq!(yumo_core::commands::recording_device(None, s, &devices), Some(prepared));
    }
    assert_eq!(yumo_core::state::resolve_device_id(&saved, &devices), 3);
    // with no saved and no default device they part: first device vs none
    let plain = vec![device(7, false)];
    assert_eq!(yumo_core::commands::recording_device(None, &none, &plain), Some(7));
    assert_eq!(yumo_core::state::resolve_device_id(&none, &plain), 0);
}
