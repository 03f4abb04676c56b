//! Plain data shared by the platform implementations.

use vstd::prelude::*;

verus! {

/// One audio input device as the recorder lists it.
#[derive(Debug, Clone)]
pub struct AudioInputDevice {
    pub id: u32,
    pub name: String,
    pub is_default: bool,
}

/// Which permissions the app holds.
#[derive(Debug, Clone, Copy, PartialEq, Eq)]
pub struct PermissionStatus {
    pub microphone: bool,
    pub accessibility: bool,
    /// Linux only: availability of paste tools (xdotool, wtype).
    /// None on macOS/Windows.
    pub paste_tools: Option<PasteToolsStatus>,
}

/// Which paste simulation tools are available on Linux.
#[derive(Debug, Clone, Copy, PartialEq, Eq)]
pub struct PasteToolsStatus {
    pub xdotool: bool,
    pub wtype: bool,
}

} // verus!
