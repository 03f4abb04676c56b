//! What each platform provides. Recording itself (audio buffers and level
//! meters, which carry floating-point samples) is driven by the application
//! layer; these traits cover the decisions the library makes.

use vstd::prelude::*;
use crate::error::AppResult;
use crate::platform::types::PermissionStatus;

verus! {

pub trait PlatformAudioCtrl {
    fn is_muted() -> AppResult<bool>;
    fn set_mute(mute: bool) -> AppResult<()>;
}

pub trait PlatformPaster {
    fn read_clipboard() -> AppResult<Option<String>>;
    fn write_clipboard(text: &str) -> AppResult<()>;
    fn save_clipboard() -> AppResult<Option<String>>;
    fn restore_clipboard(saved: Option<String>) -> AppResult<()>;
    fn simulate_paste() -> AppResult<()>;
}

pub trait PlatformPermissions {
    fn check_microphone() -> bool;
    fn check_accessibility() -> bool;
    fn check_all() -> PermissionStatus;
    fn request_microphone() -> AppResult<()>;
    fn open_microphone_settings() -> AppResult<()>;
    fn open_accessibility_settings() -> AppResult<()>;
}

pub trait PlatformKeychain {
    fn store_key(service: &str, account: &str, password: &str) -> AppResult<()>;
    fn get_key(service: &str, account: &str) -> AppResult<Option<String>>;
    fn delete_key(service: &str, account: &str) -> AppResult<()>;
}

} // verus!
