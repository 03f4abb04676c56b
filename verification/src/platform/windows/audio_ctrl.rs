//! Windows audio control: the mute state is not queried on Windows, so the
//! output is reported as not muted (as on Linux when the mixer cannot be
//! asked); setting the mute is not implemented yet and reports so.

use vstd::prelude::*;
use crate::error::{AppError, AppResult};
use crate::platform::traits::PlatformAudioCtrl;
use crate::unicode::owned;

verus! {

/// The message a Windows mute change fails with.
pub open spec fn audio_control_unavailable() -> Seq<char> {
    "Windows audio control not yet implemented"@
}

fn unavailable() -> (e: AppError)
    ensures
        e matches AppError::Recording(m) && m@ == audio_control_unavailable(),
{
    AppError::Recording(owned("Windows audio control not yet implemented"))
}

pub struct WindowsAudioCtrl;

impl PlatformAudioCtrl for WindowsAudioCtrl {
    fn is_muted() -> (r: AppResult<bool>)
        ensures
            r == Ok::<bool, AppError>(false),
    {
        Ok(false)
    }

    fn set_mute(_mute: bool) -> (r: AppResult<()>)
        ensures
            r matches Err(AppError::Recording(m)) && m@ == audio_control_unavailable(),
    {
        Err(unavailable())
    }
}

pub fn is_system_muted() -> (r: AppResult<bool>)
    ensures
        r == Ok::<bool, AppError>(false),
{
    WindowsAudioCtrl::is_muted()
}

pub fn set_system_muted(mute: bool) -> (r: AppResult<()>)
    ensures
        r matches Err(AppError::Recording(m)) && m@ == audio_control_unavailable(),
{
    WindowsAudioCtrl::set_mute(mute)
}

} // verus!
