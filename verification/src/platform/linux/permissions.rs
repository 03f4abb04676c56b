//! Linux has no macOS-style explicit permission grants: every check passes
//! and every request is a no-op.

use vstd::prelude::*;
use crate::error::AppResult;
use crate::platform::traits::PlatformPermissions;
use crate::platform::types::PermissionStatus;

verus! {

pub struct LinuxPermissions;

impl PlatformPermissions for LinuxPermissions {
    fn check_microphone() -> (r: bool)
        ensures
            r,
    {
        true
    }

    fn check_accessibility() -> (r: bool)
        ensures
            r,
    {
        true
    }

    fn check_all() -> (r: PermissionStatus)
        ensures
            r == (PermissionStatus { microphone: true, accessibility: true, paste_tools: None }),
    {
        PermissionStatus { microphone: true, accessibility: true, paste_tools: None }
    }

    fn request_microphone() -> (r: AppResult<()>)
        ensures
            r == Ok::<(), crate::error::AppError>(()),
    {
        Ok(())
    }

    fn open_microphone_settings() -> (r: AppResult<()>)
        ensures
            r == Ok::<(), crate::error::AppError>(()),
    {
        Ok(())
    }

    fn open_accessibility_settings() -> (r: AppResult<()>)
        ensures
            r == Ok::<(), crate::error::AppError>(()),
    {
        Ok(())
    }
}

pub fn check_microphone() -> (r: bool)
    ensures
        r,
{
    LinuxPermissions::check_microphone()
}

pub fn check_accessibility() -> (r: bool)
    ensures
        r,
{
    LinuxPermissions::check_accessibility()
}

pub fn check_all() -> (r: PermissionStatus)
    ensures
        r.microphone,
        r.accessibility,
        r.paste_tools is None,
{
    LinuxPermissions::check_all()
}

/// Nothing to request on Linux.
pub fn request_microphone() {
}

/// Nothing to open on Linux.
pub fn open_microphone_settings() {
}

/// Nothing to open on Linux.
pub fn open_accessibility_settings() {
}

} // verus!
