//! macOS permission decisions. The authorization status and the
//! accessibility trust flag come from AVFoundation and ApplicationServices,
//! which the application layer queries.

use vstd::prelude::*;
use crate::unicode::concat;

verus! {

pub struct MacosPermissions;

/// `AVAuthorizationStatus` values.
pub const AV_STATUS_DENIED: i64 = 2;
pub const AV_STATUS_AUTHORIZED: i64 = 3;

/// Microphone access: authorized grants it, denied refuses it; for the
/// undetermined and restricted states it is assumed when an input device
/// can be listed.
pub open spec fn microphone_granted_spec(status: i64, has_input_device: bool) -> bool {
    if status == 3 {
        true
    } else if status == 2 {
        false
    } else {
        has_input_device
    }
}

pub fn microphone_granted(status: i64, has_input_device: bool) -> (r: bool)
    ensures
        r == microphone_granted_spec(status, has_input_device),
{
    if status == AV_STATUS_AUTHORIZED {
        true
    } else if status == AV_STATUS_DENIED {
        false
    } else {
        has_input_device
    }
}

/// The System Settings privacy panes the app opens.
pub const MICROPHONE_PANE: &'static str = "Privacy_Microphone";
pub const ACCESSIBILITY_PANE: &'static str = "Privacy_Accessibility";

/// The URL that opens a privacy pane of System Settings.
pub fn settings_pane_url(pane: &str) -> (r: String)
    ensures
        r@ == "x-apple.systempreferences:com.apple.preference.security?"@ + pane@,
{
    concat("x-apple.systempreferences:com.apple.preference.security?", pane)
}

} // verus!
