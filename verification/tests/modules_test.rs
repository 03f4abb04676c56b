use yumo_core::audio_cue::{resolve_cue_source, CueKind, CueSource};
use yumo_core::audio_io::{base64_encode, recording_data_uri, recording_file_name, recording_not_found};
use yumo_core::commands::{
    load_failure_message, max_tokens, model_setting_key, needs_model_load, recording_device,
    to_napi_devices, transcription_outcome, can_start_recording,
};
use yumo_core::custom_models::{
    is_spec_extension, parse_error, spec_from_raw, validate_spec, CustomModelSpec, LoadSpec, RawSpec,
};
use yumo_core::custom_worker::{action_name, last_nonblank_output_line, reply_outcome, WorkerReply};
use yumo_core::daemon::{
    classify_line, custom_python_path, exceeds_rss_limit, is_intermediate_status, is_ready,
    is_streaming_terminal, load_succeeded, missing_packages_error, mlx_version_ok, parse_u64,
    rss_from_ps, transformers_ok, LineAction, DAEMON_RSS_LIMIT,
};
use yumo_core::db::{
    calc_keystrokes, count_words, legacy_audio_source_path, legacy_model_name, legacy_text_usable,
    legacy_word_count, next_cursor, percent_decode, text_totals, ImportResult,
};
use yumo_core::device_watcher::{snapshot, WatcherHandle};
use yumo_core::error::AppError;
use yumo_core::pipeline::PipelineState;
use yumo_core::platform::AudioInputDevice;
use yumo_core::settings::{resolve_paste_restore_delay_ms, resolve_system_mute, SettingValue, Settings};
use yumo_core::state::{join_path, resolve_device_id, AppPaths};
use std::sync::atomic::{AtomicBool, Ordering};
use std::sync::Arc;

fn settings(pairs: Vec<(&str, SettingValue)>) -> Settings {
    Settings { entries: pairs.into_iter().map(|(k, v)| (k.to_string(), v)).collect() }
}

fn num(v: u64) -> SettingValue {
    SettingValue::Number { as_u64: Some(v), whole: v }
}

fn dev(id: u32, default: bool) -> AudioInputDevice {
    AudioInputDevice { id, name: format!("d{id}"), is_default: default }
}

#[test]
fn restore_delay_default_when_no_settings() {
    assert_eq!(resolve_paste_restore_delay_ms(&settings(vec![])), 1500);
}

#[test]
fn restore_delay_reads_paste_delay_and_floats() {
    assert_eq!(resolve_paste_restore_delay_ms(&settings(vec![("paste_delay", num(800))])), 800);
    let float = SettingValue::Number { as_u64: None, whole: 250 };
    assert_eq!(resolve_paste_restore_delay_ms(&settings(vec![("paste_delay", float)])), 250);
}

#[test]
fn restore_delay_forced_zero_when_restore_off() {
    let s = settings(vec![("paste_delay", num(2000)), ("clipboard_restore", SettingValue::Bool(false))]);
    assert_eq!(resolve_paste_restore_delay_ms(&s), 0);
    let s = settings(vec![("paste_delay", num(500)), ("clipboard_restore", SettingValue::Bool(true))]);
    assert_eq!(resolve_paste_restore_delay_ms(&s), 500);
}

#[test]
fn system_mute_reads_only_ui_key() {
    assert!(!resolve_system_mute(&settings(vec![])));
    assert!(resolve_system_mute(&settings(vec![("system_mute", SettingValue::Bool(true))])));
    assert!(!resolve_system_mute(&settings(vec![("system_mute", SettingValue::Bool(false))])));
    assert!(!resolve_system_mute(&settings(vec![("system_mute_enabled", SettingValue::Bool(true))])));
}

#[test]
fn cue_sources() {
    let off = settings(vec![("sound_enabled", SettingValue::Bool(false))]);
    assert_eq!(resolve_cue_source(&off, CueKind::Start), CueSource::Disabled);
    assert_eq!(resolve_cue_source(&settings(vec![]), CueKind::Stop), CueSource::Disabled);
    let on = settings(vec![("sound_enabled", SettingValue::Bool(true))]);
    assert_eq!(resolve_cue_source(&on, CueKind::Start), CueSource::DefaultTone { frequency_hz: 880, duration_ms: 120 });
    assert_eq!(resolve_cue_source(&on, CueKind::Stop), CueSource::DefaultTone { frequency_hz: 660, duration_ms: 120 });
    let custom = settings(vec![
        ("sound_enabled", SettingValue::Bool(true)),
        ("custom_sound_file", SettingValue::Str("  /tmp/my-beep.wav ".to_string())),
    ]);
    assert_eq!(resolve_cue_source(&custom, CueKind::Start), CueSource::CustomFile("/tmp/my-beep.wav".to_string()));
    let blank = settings(vec![
        ("sound_enabled", SettingValue::Bool(true)),
        ("custom_sound_file", SettingValue::Str("   ".to_string())),
    ]);
    assert!(matches!(resolve_cue_source(&blank, CueKind::Start), CueSource::DefaultTone { .. }));
}

#[test]
fn app_paths_from_settings() {
    let p = AppPaths::defaults_with_home("/home/u");
    assert_eq!(p.data_dir, "/home/u/.voiceink");
    assert_eq!(p.models_dir, "/home/u/.voiceink/models");
    assert_eq!(p.sprites_dir, "/home/u/.voiceink/sprites");
    assert_eq!(p.recordings_dir, "/home/u/.voiceink/recordings");
    let s = settings(vec![
        ("path_data", SettingValue::Str("/tmp/voiceink-test".to_string())),
        ("path_sprites", SettingValue::Str("/my/sprites".to_string())),
        ("path_models", num(42)),
    ]);
    let p = AppPaths::from_settings_with_home(&s, "/home/u");
    assert_eq!(p.data_dir, "/tmp/voiceink-test");
    assert_eq!(p.models_dir, "/tmp/voiceink-test/models");
    assert_eq!(p.sprites_dir, "/my/sprites");
    assert_eq!(join_path("", "models"), "models");
    assert_eq!(join_path("/a/", "b"), "/a/b");
    assert_eq!(join_path("/a", "/b"), "/b");
    let d = AppPaths::defaults();
    assert!(d.data_dir.ends_with(".voiceink"));
}

#[test]
fn device_resolution() {
    let devices = vec![dev(3, false), dev(5, true)];
    assert_eq!(resolve_device_id(&settings(vec![("audio_device", num(3))]), &devices), 3);
    assert_eq!(resolve_device_id(&settings(vec![("audio_device", num(9))]), &devices), 5);
    assert_eq!(resolve_device_id(&settings(vec![]), &vec![dev(4, false)]), 0);
    assert_eq!(recording_device(Some(77), &settings(vec![]), &devices), Some(77));
    assert_eq!(recording_device(None, &settings(vec![]), &vec![dev(4, false), dev(6, false)]), Some(4));
    assert_eq!(recording_device(None, &settings(vec![]), &vec![]), None);
    let napi = to_napi_devices(&devices);
    assert_eq!(napi.len(), 2);
    assert_eq!(napi[1].id, 5);
    assert_eq!(napi[1].name, "d5");
    assert!(napi[1].is_default);
}

#[test]
fn snapshot_signature_and_stop_flag() {
    let a = vec![dev(3, false), dev(1, true), dev(2, true)];
    assert_eq!(snapshot(&a), (vec![1, 2, 3], Some(1)));
    assert_eq!(snapshot(&[]), (vec![], None));
    let b = vec![dev(2, false), dev(2, false)];
    assert_eq!(snapshot(&b), (vec![2, 2], None));
    let flag = Arc::new(AtomicBool::new(false));
    let h = WatcherHandle::new(flag.clone());
    h.stop();
    assert!(flag.load(Ordering::SeqCst));
}

#[test]
fn word_counts() {
    assert_eq!(count_words("hello world"), 2);
    assert_eq!(count_words("你好 world"), 3);
    assert_eq!(count_words("  a  b\tc\n"), 3);
    assert_eq!(count_words(""), 0);
    assert_eq!(count_words("abc你好def"), 4);
    assert_eq!(calc_keystrokes("你好 world"), 17);
    assert_eq!(text_totals(&vec!["hello world".to_string(), "你好".to_string()]), (4, 22));
}

#[test]
fn percent_decoding() {
    assert_eq!(percent_decode("a%20b"), "a b");
    assert_eq!(percent_decode("%zz"), "%zz");
    assert_eq!(percent_decode("%+5"), "\u{5}");
    assert_eq!(percent_decode("x%4"), "x%4\u{0}");
    assert_eq!(percent_decode("%"), "%\u{0}\u{0}");
    assert_eq!(percent_decode("%E4%BD%A0"), "你");
    assert_eq!(percent_decode("%E4%B8%AD.wav"), "中.wav");
    assert_eq!(percent_decode("%FF"), "\u{fffd}");
    assert_eq!(legacy_audio_source_path("file:///Users/a/rec%201.m4a"), "/Users/a/rec 1.m4a");
    assert_eq!(legacy_audio_source_path("http://x"), "");
}

#[test]
fn legacy_import_bookkeeping() {
    assert!(legacy_text_usable(&Some("hi".to_string())));
    assert!(!legacy_text_usable(&Some(String::new())));
    assert!(!legacy_text_usable(&None));
    assert_eq!(legacy_model_name(None), "unknown");
    assert_eq!(legacy_word_count(Some(7)), 7);
    assert_eq!(legacy_word_count(None), 0);
    let mut r = ImportResult::new();
    r.count_imported();
    r.count_imported();
    r.count_skipped();
    r.count_recording();
    r.count_vocabulary();
    r.count_replacement();
    assert_eq!(r, ImportResult {
        transcriptions_imported: 2,
        transcriptions_skipped: 1,
        vocabulary_imported: 1,
        replacements_imported: 1,
        recordings_copied: 1,
    });
    assert_eq!(next_cursor(10, 10, Some("t".to_string())), Some("t".to_string()));
    assert_eq!(next_cursor(3, 10, Some("t".to_string())), None);
}

#[test]
fn base64_and_data_uri() {
    assert_eq!(base64_encode(b""), "");
    assert_eq!(base64_encode(b"f"), "Zg==");
    assert_eq!(base64_encode(b"fo"), "Zm8=");
    assert_eq!(base64_encode(b"foo"), "Zm9v");
    assert_eq!(base64_encode(b"foobar"), "Zm9vYmFy");
    assert_eq!(base64_encode(&[0xff, 0xfe, 0x00]), "//4A");
    assert_eq!(recording_data_uri(b"RIFF"), "data:audio/wav;base64,UklGRg==");
    assert_eq!(recording_file_name("20240101_120000_123"), "recording_20240101_120000_123.wav");
    match recording_not_found("/nonexistent/file.wav") {
        AppError::NotFound(m) => assert_eq!(m, "Recording not found: /nonexistent/file.wav"),
        _ => panic!("expected not found"),
    }
}

fn raw(id: &str) -> RawSpec {
    RawSpec {
        schema_version: 1,
        id: id.to_string(),
        name: "Test ASR".to_string(),
        description: None,
        size_mb: 100,
        languages: vec![("zh".to_string(), "Chinese".to_string())],
        speed: 5,
        accuracy: 7,
        recommended: false,
        python_module: "fake_asr_pkg".to_string(),
        pip_packages: None,
        download: None,
        load: LoadSpec { function: "fake_asr_pkg.load_asr".to_string(), kwargs: vec![] },
        transcribe_method: None,
        language_param: None,
    }
}

#[test]
fn custom_model_specs() {
    let spec = spec_from_raw(raw("test-asr"), "/tmp/test.yaml".to_string());
    assert_eq!(spec.pip_packages, vec!["fake_asr_pkg".to_string()]);
    assert_eq!(spec.transcribe_method, "transcribe");
    assert_eq!(spec.language_param, "language");
    assert!(validate_spec(&spec, &vec![]).is_ok());
    let taken = vec!["ggml-tiny".to_string()];
    let collide: CustomModelSpec = spec_from_raw(raw("ggml-tiny"), String::new());
    match validate_spec(&collide, &taken) {
        Err(AppError::InvalidInput(m)) => assert_eq!(m, "id 'ggml-tiny' collides with an existing built-in model id"),
        _ => panic!("expected collision"),
    }
    let mut bad = spec.clone();
    bad.speed = 11;
    match validate_spec(&bad, &vec![]) {
        Err(AppError::InvalidInput(m)) => assert_eq!(m, "speed must be 1-10, got 11"),
        _ => panic!("expected speed error"),
    }
    let mut bad = spec.clone();
    bad.schema_version = 99;
    match validate_spec(&bad, &vec![]) {
        Err(AppError::InvalidInput(m)) => assert_eq!(m, "unsupported schema_version 99 (supported: [1])"),
        _ => panic!("expected schema error"),
    }
    let mut bad = spec.clone();
    bad.languages.clear();
    assert!(matches!(validate_spec(&bad, &vec![]), Err(AppError::InvalidInput(m)) if m == "languages must not be empty"));
    let mut bad = spec.clone();
    bad.accuracy = 0;
    assert!(matches!(validate_spec(&bad, &vec![]), Err(AppError::InvalidInput(m)) if m == "accuracy must be 1-10, got 0"));
    let mut bad = spec.clone();
    bad.name = "  ".to_string();
    assert!(matches!(validate_spec(&bad, &vec![]), Err(AppError::InvalidInput(m)) if m == "name must not be empty"));
    assert!(is_spec_extension("yaml"));
    assert!(is_spec_extension("yml"));
    assert!(!is_spec_extension("json"));
    match parse_error("/tmp/x.yaml", "bad") {
        AppError::InvalidInput(m) => assert_eq!(m, "YAML parse error in /tmp/x.yaml: bad"),
        _ => panic!(),
    }
}

#[test]
fn daemon_protocol() {
    assert_eq!(classify_line("   "), LineAction::Skip);
    assert_eq!(classify_line("PROGRESS: 50%"), LineAction::Skip);
    assert_eq!(classify_line("  {\"status\":\"ready\"} \n"), LineAction::Parse("{\"status\":\"ready\"}".to_string()));
    assert!(is_intermediate_status("downloading"));
    assert!(!is_intermediate_status("success"));
    assert!(!is_streaming_terminal("download_complete"));
    assert!(is_streaming_terminal("loaded"));
    assert!(load_succeeded("download_complete"));
    assert!(!load_succeeded("error"));
    assert!(is_ready(Some("ready")));
    assert!(!is_ready(None));
    assert_eq!(parse_u64("+42"), Some(42));
    assert_eq!(parse_u64("18446744073709551615"), Some(u64::MAX));
    assert_eq!(parse_u64("18446744073709551616"), None);
    assert_eq!(parse_u64(""), None);
    assert_eq!(parse_u64("+"), None);
    assert_eq!(parse_u64("1a"), None);
    assert_eq!(rss_from_ps(" 2048\n"), Some(2097152));
    assert_eq!(rss_from_ps("x"), None);
    assert!(exceeds_rss_limit(Some(DAEMON_RSS_LIMIT + 1)));
    assert!(!exceeds_rss_limit(Some(DAEMON_RSS_LIMIT)));
    assert!(!exceeds_rss_limit(None));
    assert!(transformers_ok("ok\n"));
    assert!(mlx_version_ok("0.3.1 ok\n"));
    assert!(!mlx_version_ok("0.2.0 old"));
    assert_eq!(custom_python_path("  /usr/bin/python3 \n"), Some("/usr/bin/python3".to_string()));
    assert_eq!(custom_python_path(" \n"), None);
    assert!(matches!(missing_packages_error("py"), AppError::Transcription(m) if m.starts_with("Python 'py' is missing")));
}

#[test]
fn worker_replies() {
    assert_eq!(last_nonblank_output_line("warn\n{\"ok\":true}\n\n"), Some("{\"ok\":true}".to_string()));
    assert_eq!(last_nonblank_output_line("only\r\n"), Some("only".to_string()));
    assert_eq!(last_nonblank_output_line(" \n \n"), None);
    assert_eq!(action_name(None), "unknown");
    assert!(reply_outcome(WorkerReply::Object { ok: Some(true), error: None }, "install").is_ok());
    match reply_outcome(WorkerReply::Object { ok: Some(false), error: Some("boom".to_string()) }, "install") {
        Err(AppError::Transcription(m)) => assert_eq!(m, "boom (action=install)"),
        _ => panic!(),
    }
    match reply_outcome(WorkerReply::Object { ok: None, error: None }, "dl") {
        Err(AppError::Transcription(m)) => assert_eq!(m, "worker reported failure (no error message) (action=dl)"),
        _ => panic!(),
    }
    match reply_outcome(WorkerReply::NotObject("[1]".to_string()), "dl") {
        Err(AppError::Transcription(m)) => assert_eq!(m, "worker output not a JSON object: [1]"),
        _ => panic!(),
    }
}

#[test]
fn command_decisions() {
    assert!(can_start_recording(PipelineState::Idle));
    assert!(!can_start_recording(PipelineState::Recording));
    assert!(needs_model_load(&Some("a".to_string()), &Some("b".to_string())));
    assert!(!needs_model_load(&Some("a".to_string()), &Some("a".to_string())));
    assert!(needs_model_load(&Some("a".to_string()), &None));
    assert!(!needs_model_load(&None, &Some("a".to_string())));
    assert_eq!(load_failure_message(None, "error"), "load failed: error");
    assert_eq!(load_failure_message(Some("oom".to_string()), "error"), "oom");
    assert_eq!(transcription_outcome("success", Some("hi".to_string()), None), Ok("hi".to_string()));
    assert_eq!(transcription_outcome("success", None, None), Ok(String::new()));
    assert_eq!(transcription_outcome("error", None, None), Err("Transcription failed".to_string()));
    assert_eq!(model_setting_key("ggml-base", "temperature"), "model_ggml-base_temperature");
    assert_eq!(max_tokens(None), 1900);
    assert_eq!(max_tokens(Some(4294967297)), 1);
}
