//! Windows needs no macOS-style explicit permission grant: every check passes
//! and every request is a no-op.

use vstd::prelude::*;
use crate::error::AppResult;
use crate::platform::traits::PlatformPermissions;
use crate::platform::types::PermissionStatus;

verus! {

pub struct WindowsPermissions;

impl PlatformPermissions for WindowsPermissions {
    fn check_microphone() -> (r: bool)
        ensures
            r,
    {
        true
    }

    fn check_accessibility() -> (r: bool)
        ensures
            r,
    {
        true
    }

    fn check_all() -> (r: PermissionStatus)
        ensures
            r == (PermissionStatus { microphone: true, accessibility: true, paste_tools: None }),
    {
        PermissionStatus { microphone: true, accessibility: true, paste_tools: None }
    }

    fn request_microphone() -> (r: AppResult<()>)
        ensures
            r == Ok::<(), crate::error::AppError>(()),
    {
        Ok(())
    }

    fn open_microphone_settings() -> (r: AppResult<()>)
        ensures
            r == Ok::<(), crate::error::AppError>(()),
    {
        Ok(())
    }

    fn open_accessibility_settings() -> (r: AppResult<()>)
        ensures
            r == Ok::<(), crate::error::AppError>(()),
    {
        Ok(())
    }
}

pub fn check_microphone() -> (r: bool)
    ensures
        r,
{
    WindowsPermissions::check_microphone()
}

pub fn check_accessibility() -> (r: bool)
    ensures
        r,
{
    WindowsPermissions::check_accessibility()
}

pub fn check_all() -> (r: PermissionStatus)
    ensures
        r.microphone,
        r.accessibility,
        r.paste_tools is None,
{
    WindowsPermissions::check_all()
}

/// Nothing to request on Windows.
pub fn request_microphone() {
}

/// Nothing to open on Windows.
pub fn open_microphone_settings() {
}

/// Nothing to open on Windows.
pub fn open_accessibility_settings() {
}

} // verus!
