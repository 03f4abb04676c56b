use yumo_core::platform::linux::audio_ctrl::{mute_query_command, set_mute_command};
use yumo_core::error::AppError;
use yumo_core::permissions;
use yumo_core::platform::recorder;
use yumo_core::platform::traits::{PlatformKeychain, PlatformPermissions};
use yumo_core::platform::windows;
use yumo_core::platform::macos;
use yumo_core::platform::linux::audio_ctrl as linux_audio;
use yumo_core::platform::{AudioInputDevice, PermissionStatus};
use yumo_core::platform::windows::recorder::{capture_format, FormatSupport};
use yumo_core::platform::linux::keychain::{read_outcome, delete_outcome, store_outcome, KeyringFailure};
use yumo_core::platform::macos::permissions::{microphone_granted, settings_pane_url};

#[test]
fn test_check_permissions_returns_status() {
    let status = permissions::check_all();
    // Should return valid booleans (either true or false, just not crash)
    println!(
        "Microphone: {}, Accessibility: {}",
        status.microphone, status.accessibility
    );
}

#[test]
fn platform_stubs_test_recorder_does_not_panic() {
    let _ = recorder::list_input_devices();
}

#[test]
fn platform_stubs_test_permissions_return_true() {
    assert!(permissions::check_microphone());
    assert!(permissions::check_accessibility());
    let status = permissions::check_all();
    assert!(status.microphone);
    assert!(status.accessibility);
}

#[test]
fn test_permissions_via_trait() {
    let status = permissions::check_all();
    let _ = status.microphone;
    let _ = status.accessibility;
}

#[test]
fn test_list_audio_devices() {
    // CI may have no audio device; only check that listing does not panic
    let result = recorder::list_input_devices();
    if let Ok(devices) = result {
        for dev in &devices {
            assert!(!dev.name.is_empty());
            assert!(dev.id > 0);
        }
    }
}

#[test]
fn linux_recorder_reports_not_implemented() {
    match recorder::list_input_devices() {
        Err(AppError::Recording(m)) => assert_eq!(m, "Linux audio not yet implemented"),
        other => panic!("unexpected {:?}", other.map(|v| v.len())),
    }
}

#[test]
fn windows_mute_query_reports_unmuted_and_setting_is_not_implemented() {
    assert_eq!(windows::audio_ctrl::is_system_muted().unwrap(), false);
    match windows::audio_ctrl::set_system_muted(true) {
        Err(AppError::Recording(m)) => assert_eq!(m, "Windows audio control not yet implemented"),
        _ => panic!("expected the not-implemented error"),
    }
}

#[test]
fn windows_keychain_errors_are_reported_as_io() {
    for r in [
        windows::keychain::store_key("yumo-test", "ci", "secret").err(),
        windows::keychain::delete_key("yumo-test", "ci").err(),
    ] {
        if let Some(e) = r {
            assert!(matches!(e, AppError::Io(_)));
        }
    }
}

#[test]
fn test_is_system_muted_returns_ok() {
    let result = windows::audio_ctrl::is_system_muted();
    assert!(result.is_ok(), "is_system_muted should return Ok, got {:?}", result);
}

#[test]
fn windows_permissions_all_granted() {
    assert!(windows::permissions::check_microphone());
    let s = windows::permissions::WindowsPermissions::check_all();
    assert_eq!(s, PermissionStatus { microphone: true, accessibility: true, paste_tools: None });
    assert!(windows::permissions::WindowsPermissions::request_microphone().is_ok());
}

#[test]
fn windows_device_list_numbering_and_default() {
    let reported = vec![Some("Mic A".to_string()), None, Some("Mic C".to_string())];
    let list = windows::recorder::device_list(reported, "Mic C");
    assert_eq!(list.len(), 3);
    assert_eq!(list[0].id, 1);
    assert_eq!(list[0].name, "Mic A");
    assert!(!list[0].is_default);
    assert_eq!(list[1].name, "Device 1");
    assert_eq!(list[2].id, 3);
    assert!(list.iter().all(|d| !d.name.is_empty() && d.id > 0));
    assert!(list[2].is_default);
}

#[test]
fn windows_device_index_and_formats() {
    assert_eq!(windows::recorder::device_index(1, 3).unwrap(), 0);
    assert_eq!(windows::recorder::device_index(3, 3).unwrap(), 2);
    assert!(windows::recorder::device_index(0, 3).is_err());
    match windows::recorder::device_index(7, 3) {
        Err(AppError::Recording(m)) => assert_eq!(m, "Input device 7 not found"),
        _ => panic!("expected not found"),
    }
    assert!(windows::recorder::supports_16k_mono(&vec![(2, 8000, 48000), (1, 8000, 48000)]));
    assert!(!windows::recorder::supports_16k_mono(&vec![(2, 8000, 48000), (1, 22050, 48000)]));
    assert_eq!(capture_format(FormatSupport::Unknown).unwrap(), (16000, 1));
    assert_eq!(capture_format(FormatSupport::Mono16k).unwrap(), (16000, 1));
    assert_eq!(capture_format(FormatSupport::DeviceDefault(Ok((48000, 2)))).unwrap(), (48000, 2));
    match capture_format(FormatSupport::DeviceDefault(Err("busy".to_string()))) {
        Err(AppError::Recording(m)) => assert_eq!(m, "No supported input config: busy"),
        _ => panic!("expected error"),
    }
}

#[test]
fn linux_mute_decisions() {
    assert!(linux_audio::mute_query_outcome(Some("Mute: yes\n")).unwrap());
    assert!(!linux_audio::mute_query_outcome(Some("Mute: no\n")).unwrap());
    assert!(!linux_audio::mute_query_outcome(None).unwrap());
    assert_eq!(linux_audio::mute_flag(true), "1");
    assert_eq!(linux_audio::mute_flag(false), "0");
    assert!(linux_audio::set_mute_outcome(None).is_ok());
    assert!(matches!(linux_audio::set_mute_outcome(Some("no pactl".into())), Err(AppError::Io(_))));
    assert!(linux_audio::text_contains("abcyesd", "yes"));
    assert!(!linux_audio::text_contains("ye", "yes"));
}

#[test]
fn linux_keychain_outcomes() {
    assert_eq!(read_outcome(Ok("pw".to_string())).unwrap(), Some("pw".to_string()));
    assert_eq!(read_outcome(Err(KeyringFailure::Missing)).unwrap(), None);
    match read_outcome(Err(KeyringFailure::Other("locked".to_string()))) {
        Err(AppError::Io(m)) => assert_eq!(m, "keychain read failed: locked"),
        _ => panic!("expected io error"),
    }
    assert!(delete_outcome(Err(KeyringFailure::Missing)).is_ok());
    match store_outcome(Err("denied".to_string())) {
        Err(AppError::Io(m)) => assert_eq!(m, "keychain store failed: denied"),
        _ => panic!("expected io error"),
    }
}

#[test]
fn linux_keychain_lookup_of_unknown_entry() {
    // An entry never written is missing (or the store cannot be reached).
    let r = yumo_core::platform::keychain::get_key("yumo-core-test-service", "nobody");
    match r {
        Ok(v) => assert!(v.is_none()),
        Err(AppError::Io(m)) => assert!(m.starts_with("keychain")),
        Err(e) => panic!("unexpected {:?}", e),
    }
}

#[test]
fn macos_decisions() {
    assert!(microphone_granted(3, false));
    assert!(!microphone_granted(2, true));
    assert!(microphone_granted(0, true));
    assert!(!microphone_granted(1, false));
    assert_eq!(
        settings_pane_url("Privacy_Microphone"),
        "x-apple.systempreferences:com.apple.preference.security?Privacy_Microphone"
    );
    assert_eq!(macos::keychain::read_outcome(Err((-25300, "x".to_string()))).unwrap(), None);
    match macos::keychain::read_outcome(Err((-1, "boom".to_string()))) {
        Err(AppError::Io(m)) => assert_eq!(m, "Keychain read failed: boom"),
        _ => panic!("expected io error"),
    }
    match macos::keychain::read_outcome(Ok(Err("bad utf8".to_string()))) {
        Err(AppError::Io(m)) => assert_eq!(m, "Keychain decode failed: bad utf8"),
        _ => panic!("expected io error"),
    }
    assert!(macos::keychain::delete_outcome(Err((-25300, String::new()))).is_ok());
    assert!(macos::keychain::delete_outcome(Err((-5, String::new()))).is_err());
}

#[test]
fn linux_paste_and_restore_do_not_fail() {
    assert!(yumo_core::platform::paster::paste_text("hello", 0).is_ok());
    yumo_core::platform::paster::restore_clipboard(None);
    yumo_core::platform::paster::simulate_paste();
}

#[test]
fn audio_input_device_struct() {
    let device = AudioInputDevice { id: 1, name: "Built-in Microphone".to_string(), is_default: true };
    assert_eq!(device.id, 1);
    assert!(device.is_default);
}

#[test]
fn platform_stubs_test_audio_ctrl_does_not_panic() {
    let _ = windows::audio_ctrl::is_system_muted();
}

#[test]
fn test_device_listing() {
    // the device list built from what the system reports
    let reported = vec![Some("Built-in Microphone".to_string()), None];
    let devices = windows::recorder::device_list(reported, "Built-in Microphone");
    assert_eq!(devices.len(), 2);
    for dev in &devices {
        assert!(!dev.name.is_empty());
        assert!(dev.id > 0);
    }
    assert!(devices[0].is_default);
    assert_eq!(devices[1].name, "Device 1");
}

#[test]
fn linux_mute_command_lines() {
    assert_eq!(set_mute_command(true), vec!["pactl", "set-sink-mute", "@DEFAULT_SINK@", "1"]);
    assert_eq!(set_mute_command(false), vec!["pactl", "set-sink-mute", "@DEFAULT_SINK@", "0"]);
    assert_eq!(mute_query_command(), vec!["pactl", "get-sink-mute", "@DEFAULT_SINK@"]);
}
