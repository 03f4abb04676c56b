//! Linux recording is not implemented yet: every recorder call reports so.

use vstd::prelude::*;
use crate::error::{AppError, AppResult};
use crate::platform::types::AudioInputDevice;
use crate::unicode::owned;

verus! {

/// The message every Linux recorder call fails with.
pub open spec fn linux_audio_unavailable() -> Seq<char> {
    "Linux audio not yet implemented"@
}

/// The error every Linux recorder call returns.
pub fn unavailable() -> (e: AppError)
    ensures
        e matches AppError::Recording(m) && m@ == linux_audio_unavailable(),
{
    AppError::Recording(owned("Linux audio not yet implemented"))
}

pub struct LinuxRecorder;

impl LinuxRecorder {
    pub fn list_devices() -> (r: AppResult<Vec<AudioInputDevice>>)
        ensures
            r matches Err(AppError::Recording(m)) && m@ == linux_audio_unavailable(),
    {
        Err(unavailable())
    }
}

pub fn list_input_devices() -> (r: AppResult<Vec<AudioInputDevice>>)
    ensures
        r matches Err(AppError::Recording(m)) && m@ == linux_audio_unavailable(),
{
    LinuxRecorder::list_devices()
}

} // verus!
